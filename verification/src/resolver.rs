//! The resolution engine: walks a pattern, substitutes variables, resolves
//! message/term/attribute references, evaluates select expressions (including
//! plural-category matching), invokes registered functions, and enforces the
//! recursion-depth and cycle guards. It never aborts: every failure appends a
//! diagnostic and renders an inline fallback token.
//!
//! The whole resolution is modelled by pure specification functions over the
//! bundle's tables, the locale string, and the arguments; the executable
//! functions return exactly what the model says, so resolving twice with the
//! same inputs gives the same output and the same diagnostics.

use vstd::prelude::*;
use vstd::string::StrSliceExecFns;
use vstd::string::StringExecFns;

use crate::args::spec_get;
use crate::args::FluentArgs;
use crate::ast::call_args_wf;
use crate::ast::element_wf;
use crate::ast::expr_wf;
use crate::ast::message_wf;
use crate::ast::pattern_wf;
use crate::ast::term_wf;
use crate::ast::variant_wf;
use crate::ast::Expression;
use crate::ast::FluentMessage;
use crate::ast::FluentTerm;
use crate::ast::NamedArgument;
use crate::ast::Pattern;
use crate::ast::PatternElement;
use crate::ast::Variant;
use crate::ast::VariantKey;
use crate::datetime::FluentDateTime;
use crate::errors::FluentError;
use crate::intl::plural_category_of;
use crate::intl::plural_rules_exist;
use crate::intl::spec_category_name;
use crate::intl::category_name;
use crate::intl::IntlLangMemoizer;
use crate::number::spec_merge_number_options;
use crate::number::spec_shaped_standard;
use crate::number::spec_trim;
use crate::number::trim_zeros;
use crate::number::FluentNumber;
use crate::datetime::spec_merge_datetime_options;
use crate::strutil::str_eq;
use crate::value::FluentValue;

verus! {

/// The recursion-depth cap on message and term references: deeper chains stop
/// with a diagnostic instead of looping.
pub const MAX_DEPTH: u32 = 100;

/// The closed set of native formatting functions a bundle can register: each
/// takes one value of the matching kind and merges the named options into it;
/// anything else yields the error value without aborting the resolution.
#[derive(Debug, Copy, Clone, PartialEq, Eq, Structural)]
pub enum NativeFunction {
    Number,
    Datetime,
}

/// The first message with this id, front to back.
pub open spec fn lookup_message(msgs: Seq<FluentMessage>, id: Seq<char>) -> Option<FluentMessage>
    decreases msgs.len(),
{
    if msgs.len() == 0 {
        None
    } else if msgs[0].id@ == id {
        Some(msgs[0])
    } else {
        lookup_message(msgs.skip(1), id)
    }
}

/// The first term with this id, front to back.
pub open spec fn lookup_term(terms: Seq<FluentTerm>, id: Seq<char>) -> Option<FluentTerm>
    decreases terms.len(),
{
    if terms.len() == 0 {
        None
    } else if terms[0].id@ == id {
        Some(terms[0])
    } else {
        lookup_term(terms.skip(1), id)
    }
}

/// The first attribute with this name, front to back.
pub open spec fn lookup_attr(attrs: Seq<(String, Pattern)>, name: Seq<char>) -> Option<int>
    decreases attrs.len(),
{
    if attrs.len() == 0 {
        None
    } else if attrs[0].0@ == name {
        Some(0)
    } else {
        match lookup_attr(attrs.skip(1), name) {
            Some(i) => Some(i + 1),
            None => None,
        }
    }
}

/// The first registered function with this name, front to back.
pub open spec fn lookup_function(funcs: Seq<(String, NativeFunction)>, name: Seq<char>) -> Option<
    NativeFunction,
>
    decreases funcs.len(),
{
    if funcs.len() == 0 {
        None
    } else if funcs[0].0@ == name {
        Some(funcs[0].1)
    } else {
        lookup_function(funcs.skip(1), name)
    }
}

/// Whether an entry id is already being resolved.
pub open spec fn guard_has(guard: Seq<String>, id: Seq<char>) -> bool {
    exists|i: int| 0 <= i < guard.len() && (#[trigger] guard[i])@ == id
}

/// Every argument value is well formed.
pub open spec fn vals_wf(args: Seq<(String, FluentValue)>) -> bool {
    forall|i: int| 0 <= i < args.len() ==> (#[trigger] args[i]).1.wf()
}

/// The inline fallback token for an unresolvable variable: `{$name}`.
pub open spec fn fb_var(name: Seq<char>) -> Seq<char> {
    seq!['{', '$'] + name + seq!['}']
}

/// The inline fallback token for an unresolvable message or term reference:
/// `{id}` or `{id.attr}`.
pub open spec fn fb_ref(id: Seq<char>, attr: Option<String>) -> Seq<char> {
    seq!['{'] + id + (match attr {
        Some(a) => seq!['.'] + a@,
        None => Seq::<char>::empty(),
    }) + seq!['}']
}

/// The inline fallback token for an unresolvable function reference:
/// `{name()}`.
pub open spec fn fb_func(name: Seq<char>) -> Seq<char> {
    seq!['{'] + name + seq!['(', ')', '}']
}

/// What a value renders to, and the diagnostics the rendering itself raises:
/// text renders as itself, numbers and date-times render through the locale
/// formatters (a failed formatter construction renders empty with a
/// diagnostic), and the error and absent values render as empty text with the
/// diagnostic already counted where the value was produced.
pub open spec fn stringify_spec(v: FluentValue, locale: Seq<char>) -> (Seq<char>, Seq<FluentError>) {
    match v {
        FluentValue::String(s) => (s@, Seq::<FluentError>::empty()),
        FluentValue::Number(n) => match n.spec_as_string(locale) {
            Some(t) => (t, Seq::<FluentError>::empty()),
            None => (Seq::<char>::empty(), seq![FluentError::FormatterConstructionFailure]),
        },
        FluentValue::DateTime(d) => match d.spec_as_string(locale) {
            Some(t) => (t, Seq::<FluentError>::empty()),
            None => (Seq::<char>::empty(), seq![FluentError::FormatterConstructionFailure]),
        },
        FluentValue::Error => (Seq::<char>::empty(), Seq::<FluentError>::empty()),
        FluentValue::Absent => (Seq::<char>::empty(), Seq::<FluentError>::empty()),
    }
}

/// Numeric equality of two decimals: equal trimmed mantissa and scale, with
/// signs compared only on nonzero values.
pub open spec fn spec_decimal_eq(a: FluentNumber, b: FluentNumber) -> bool {
    let ta = spec_trim(a.mantissa as nat, a.scale as nat);
    let tb = spec_trim(b.mantissa as nat, b.scale as nat);
    ta == tb && (a.negative == b.negative || ta.0 == 0)
}

/// Whether a variant key matches a selector value: numbers match number keys
/// by numeric equality and identifier keys by the locale's cardinal plural
/// category of their shaped digits; strings match identifier keys by
/// equality.
pub open spec fn variant_matches(key: VariantKey, sel: FluentValue, locale: Seq<char>) -> bool {
    match (sel, key) {
        (FluentValue::Number(n), VariantKey::NumberLiteral(k)) => spec_decimal_eq(n, k),
        (FluentValue::Number(n), VariantKey::Identifier(name)) => plural_rules_exist(locale, true)
            && spec_category_name(plural_category_of(locale, true, spec_shaped_standard(n)))
            == name@,
        (FluentValue::String(s), VariantKey::Identifier(name)) => s@ == name@,
        _ => false,
    }
}

/// The first variant, from `i` on, whose key matches the selector.
pub open spec fn find_matching(
    variants: Seq<Variant>,
    i: int,
    sel: FluentValue,
    locale: Seq<char>,
) -> Option<int>
    decreases variants.len() - i,
{
    if i < 0 || i >= variants.len() {
        None
    } else if variant_matches(variants[i].key, sel, locale) {
        Some(i)
    } else {
        find_matching(variants, i + 1, sel, locale)
    }
}

/// The first variant, from `i` on, marked default.
pub open spec fn find_default(variants: Seq<Variant>, i: int) -> Option<int>
    decreases variants.len() - i,
{
    if i < 0 || i >= variants.len() {
        None
    } else if variants[i].default {
        Some(i)
    } else {
        find_default(variants, i + 1)
    }
}

/// What a native function returns: exactly one value of the matching kind
/// with the named options merged into it, anything else the error value.
pub open spec fn apply_native_spec(
    f: NativeFunction,
    pos: Seq<FluentValue>,
    named: Seq<(String, FluentValue)>,
) -> FluentValue {
    match f {
        NativeFunction::Number => {
            if pos.len() != 1 {
                FluentValue::Error
            } else {
                match pos[0] {
                    FluentValue::Number(n) => FluentValue::Number(
                        FluentNumber {
                            options: spec_merge_number_options(n.options, named),
                            ..n
                        },
                    ),
                    _ => FluentValue::Error,
                }
            }
        },
        NativeFunction::Datetime => {
            if pos.len() != 1 {
                FluentValue::Error
            } else {
                match pos[0] {
                    FluentValue::DateTime(d) => FluentValue::DateTime(
                        FluentDateTime {
                            options: spec_merge_datetime_options(d.options, named),
                            ..d
                        },
                    ),
                    _ => FluentValue::Error,
                }
            }
        },
    }
}

/// The value an expression resolves to in value position (a selector or a
/// call argument), with its diagnostics. Literals and variables resolve to
/// values, function references apply the registered native function; message,
/// term and select expressions do not resolve to values and report the
/// reference as unresolvable.
pub open spec fn resolve_value_spec(
    funcs: Seq<(String, NativeFunction)>,
    args: Seq<(String, FluentValue)>,
    e: Expression,
) -> (FluentValue, Seq<FluentError>)
    decreases e, 2int,
{
    match e {
        Expression::StringLiteral(s) => (FluentValue::String(s), Seq::<FluentError>::empty()),
        Expression::NumberLiteral(n) => (FluentValue::Number(n), Seq::<FluentError>::empty()),
        Expression::VariableReference(name) => match spec_get(args, name@) {
            Some(v) => (v, Seq::<FluentError>::empty()),
            None => (FluentValue::Error, seq![FluentError::UnknownVariable]),
        },
        Expression::FunctionReference(name, cargs) => {
            let (pos, e1) = resolve_positional_spec(funcs, args, cargs.positional@, 0);
            let (named, e2) = resolve_named_spec(funcs, args, cargs.named@, 0);
            match lookup_function(funcs, name@) {
                Some(f) => (apply_native_spec(f, pos, named), e1 + e2),
                None => (FluentValue::Error, e1 + e2 + seq![FluentError::UnknownFunction]),
            }
        },
        Expression::MessageReference(_, _) => (
            FluentValue::Error,
            seq![FluentError::UnknownMessage],
        ),
        Expression::TermReference(_, _, _) => (FluentValue::Error, seq![FluentError::UnknownTerm]),
        Expression::Select(_, _) => (FluentValue::Error, Seq::<FluentError>::empty()),
    }
}

/// The positional call arguments from `i` on, each resolved in value
/// position.
pub open spec fn resolve_positional_spec(
    funcs: Seq<(String, NativeFunction)>,
    args: Seq<(String, FluentValue)>,
    es: Seq<Expression>,
    i: int,
) -> (Seq<FluentValue>, Seq<FluentError>)
    decreases es, es.len() - i, 0int,
{
    if i < 0 || i >= es.len() {
        (Seq::<FluentValue>::empty(), Seq::<FluentError>::empty())
    } else {
        let (v, e1) = resolve_value_spec(funcs, args, es[i]);
        let (rest, e2) = resolve_positional_spec(funcs, args, es, i + 1);
        (seq![v] + rest, e1 + e2)
    }
}

/// The named call arguments from `i` on, each resolved in value position,
/// keeping their order.
pub open spec fn resolve_named_spec(
    funcs: Seq<(String, NativeFunction)>,
    args: Seq<(String, FluentValue)>,
    named: Seq<NamedArgument>,
    i: int,
) -> (Seq<(String, FluentValue)>, Seq<FluentError>)
    decreases named, named.len() - i, 0int,
{
    if i < 0 || i >= named.len() {
        (Seq::<(String, FluentValue)>::empty(), Seq::<FluentError>::empty())
    } else {
        let (v, e1) = resolve_value_spec(funcs, args, named[i].value);
        let (rest, e2) = resolve_named_spec(funcs, args, named, i + 1);
        (seq![(named[i].name, v)] + rest, e1 + e2)
    }
}

/// What a whole pattern resolves to, with its diagnostics: the elements in
/// order, placeables wrapped in directional-isolation marks when isolation is
/// on and the pattern mixes three or more segments.
pub open spec fn resolve_pattern_spec(
    msgs: Seq<FluentMessage>,
    terms: Seq<FluentTerm>,
    funcs: Seq<(String, NativeFunction)>,
    locale: Seq<char>,
    isolating: bool,
    args: Seq<(String, FluentValue)>,
    p: Pattern,
    guard: Seq<String>,
    budget: nat,
) -> (Seq<char>, Seq<FluentError>)
    decreases budget, p, 0int,
{
    let isolate = isolating && p.elements@.len() > 2;
    resolve_elements_spec(msgs, terms, funcs, locale, isolating, args, p.elements@, 0, isolate, guard, budget)
}

/// The pattern elements from `i` on, in order.
pub open spec fn resolve_elements_spec(
    msgs: Seq<FluentMessage>,
    terms: Seq<FluentTerm>,
    funcs: Seq<(String, NativeFunction)>,
    locale: Seq<char>,
    isolating: bool,
    args: Seq<(String, FluentValue)>,
    elems: Seq<PatternElement>,
    i: int,
    isolate: bool,
    guard: Seq<String>,
    budget: nat,
) -> (Seq<char>, Seq<FluentError>)
    decreases budget, elems, elems.len() - i,
{
    if i < 0 || i >= elems.len() {
        (Seq::<char>::empty(), Seq::<FluentError>::empty())
    } else {
        let (t1, e1) = match elems[i] {
            PatternElement::Text(t) => (t@, Seq::<FluentError>::empty()),
            PatternElement::Placeable(x) => {
                let (tx, ex) = write_expr_spec(
                    msgs,
                    terms,
                    funcs,
                    locale,
                    isolating,
                    args,
                    x,
                    guard,
                    budget,
                );
                if isolate {
                    (seq!['\u{2068}'] + tx + seq!['\u{2069}'], ex)
                } else {
                    (tx, ex)
                }
            },
        };
        let (t2, e2) = resolve_elements_spec(
            msgs,
            terms,
            funcs,
            locale,
            isolating,
            args,
            elems,
            i + 1,
            isolate,
            guard,
            budget,
        );
        (t1 + t2, e1 + e2)
    }
}

proof fn lemma_find_matching_range(variants: Seq<Variant>, i: int, sel: FluentValue, locale: Seq<
    char,
>)
    ensures
        find_matching(variants, i, sel, locale) matches Some(j) ==> 0 <= i <= j
            < variants.len(),
    decreases variants.len() - i,
{
    if 0 <= i < variants.len() && !variant_matches(variants[i].key, sel, locale) {
        lemma_find_matching_range(variants, i + 1, sel, locale);
    }
}

proof fn lemma_find_default_range(variants: Seq<Variant>, i: int)
    ensures
        find_default(variants, i) matches Some(j) ==> 0 <= i <= j < variants.len(),
    decreases variants.len() - i,
{
    if 0 <= i < variants.len() && !variants[i].default {
        lemma_find_default_range(variants, i + 1);
    }
}

/// What one placeable expression writes, with its diagnostics. References
/// re-entering an id already being resolved stop with a cyclic-reference
/// diagnostic; deeper recursion than the depth cap stops with a
/// too-many-placeables diagnostic; every failure writes the inline fallback
/// token of the failed reference.
pub open spec fn write_expr_spec(
    msgs: Seq<FluentMessage>,
    terms: Seq<FluentTerm>,
    funcs: Seq<(String, NativeFunction)>,
    locale: Seq<char>,
    isolating: bool,
    args: Seq<(String, FluentValue)>,
    e: Expression,
    guard: Seq<String>,
    budget: nat,
) -> (Seq<char>, Seq<FluentError>)
    decreases budget, e, 1int,
    via write_expr_spec_decreases
{
    match e {
        Expression::StringLiteral(s) => (s@, Seq::<FluentError>::empty()),
        Expression::NumberLiteral(n) => stringify_spec(FluentValue::Number(n), locale),
        Expression::VariableReference(name) => match spec_get(args, name@) {
            Some(v) => stringify_spec(v, locale),
            None => (fb_var(name@), seq![FluentError::UnknownVariable]),
        },
        Expression::MessageReference(id, attr) => {
            if guard_has(guard, id@) {
                (fb_ref(id@, attr), seq![FluentError::CyclicReference])
            } else if budget == 0 {
                (fb_ref(id@, attr), seq![FluentError::TooManyPlaceables])
            } else {
                match lookup_message(msgs, id@) {
                    None => (fb_ref(id@, attr), seq![FluentError::UnknownMessage]),
                    Some(m) => {
                        let chosen: Option<Pattern> = match attr {
                            None => m.value,
                            Some(a) => match lookup_attr(m.attributes@, a@) {
                                Some(j) => Some(m.attributes@[j].1),
                                None => None,
                            },
                        };
                        match chosen {
                            Some(p) => resolve_pattern_spec(
                                msgs,
                                terms,
                                funcs,
                                locale,
                                isolating,
                                args,
                                p,
                                guard.push(m.id),
                                (budget - 1) as nat,
                            ),
                            None => {
                                if attr is Some {
                                    (fb_ref(id@, attr), seq![FluentError::UnknownAttribute])
                                } else {
                                    (fb_ref(id@, attr), seq![FluentError::UnknownMessage])
                                }
                            },
                        }
                    },
                }
            }
        },
        Expression::TermReference(id, attr, cargs) => {
            if guard_has(guard, id@) {
                (fb_ref(id@, attr), seq![FluentError::CyclicReference])
            } else if budget == 0 {
                (fb_ref(id@, attr), seq![FluentError::TooManyPlaceables])
            } else {
                match lookup_term(terms, id@) {
                    None => (fb_ref(id@, attr), seq![FluentError::UnknownTerm]),
                    Some(t) => {
                        let chosen: Option<Pattern> = match attr {
                            None => Some(t.value),
                            Some(a) => match lookup_attr(t.attributes@, a@) {
                                Some(j) => Some(t.attributes@[j].1),
                                None => None,
                            },
                        };
                        match chosen {
                            Some(p) => {
                                let (locals, e1) = resolve_named_spec(
                                    funcs,
                                    args,
                                    cargs.named@,
                                    0,
                                );
                                let (t2, e2) = resolve_pattern_spec(
                                    msgs,
                                    terms,
                                    funcs,
                                    locale,
                                    isolating,
                                    locals,
                                    p,
                                    guard.push(t.id),
                                    (budget - 1) as nat,
                                );
                                (t2, e1 + e2)
                            },
                            None => (fb_ref(id@, attr), seq![FluentError::UnknownAttribute]),
                        }
                    },
                }
            }
        },
        Expression::FunctionReference(name, cargs) => {
            let (pos, e1) = resolve_positional_spec(funcs, args, cargs.positional@, 0);
            let (named, e2) = resolve_named_spec(funcs, args, cargs.named@, 0);
            match lookup_function(funcs, name@) {
                None => (fb_func(name@), e1 + e2 + seq![FluentError::UnknownFunction]),
                Some(f) => {
                    let v = apply_native_spec(f, pos, named);
                    let (t3, e3) = stringify_spec(v, locale);
                    (t3, e1 + e2 + e3)
                },
            }
        },
        Expression::Select(sel, variants) => {
            let (sv, e1) = resolve_value_spec(funcs, args, *sel);
            match find_matching(variants@, 0, sv, locale) {
                Some(j) => {
                    let (t2, e2) = resolve_pattern_spec(
                        msgs,
                        terms,
                        funcs,
                        locale,
                        isolating,
                        args,
                        variants@[j].value,
                        guard,
                        budget,
                    );
                    (t2, e1 + e2)
                },
                None => match find_default(variants@, 0) {
                    Some(j) => {
                        let (t2, e2) = resolve_pattern_spec(
                            msgs,
                            terms,
                            funcs,
                            locale,
                            isolating,
                            args,
                            variants@[j].value,
                            guard,
                            budget,
                        );
                        (t2, e1 + e2)
                    },
                    None => {
                        if variants@.len() > 0 {
                            let (t2, e2) = resolve_pattern_spec(
                                msgs,
                                terms,
                                funcs,
                                locale,
                                isolating,
                                args,
                                variants@[0].value,
                                guard,
                                budget,
                            );
                            (t2, e1 + seq![FluentError::MissingDefaultVariant] + e2)
                        } else {
                            (
                                Seq::<char>::empty(),
                                e1 + seq![FluentError::MissingDefaultVariant],
                            )
                        }
                    },
                },
            }
        },
    }
}

#[via_fn]
proof fn write_expr_spec_decreases(
    msgs: Seq<FluentMessage>,
    terms: Seq<FluentTerm>,
    funcs: Seq<(String, NativeFunction)>,
    locale: Seq<char>,
    isolating: bool,
    args: Seq<(String, FluentValue)>,
    e: Expression,
    guard: Seq<String>,
    budget: nat,
) {
    broadcast use vstd::seq::group_seq_axioms;

    match e {
        Expression::Select(sel, variants) => {
            let (sv, e1) = resolve_value_spec(funcs, args, *sel);
            lemma_find_matching_range(variants@, 0, sv, locale);
            lemma_find_default_range(variants@, 0);
        },
        _ => {},
    }
}

} // verus!

verus! {

/// Every catalog entry's patterns are well formed.
pub open spec fn catalog_wf(msgs: Seq<FluentMessage>, terms: Seq<FluentTerm>) -> bool {
    &&& (forall|i: int| 0 <= i < msgs.len() ==> message_wf(#[trigger] msgs[i]))
    &&& (forall|i: int| 0 <= i < terms.len() ==> term_wf(#[trigger] terms[i]))
}

proof fn lemma_spec_get_wf(pairs: Seq<(String, FluentValue)>, name: Seq<char>)
    requires
        vals_wf(pairs),
    ensures
        spec_get(pairs, name) matches Some(v) ==> v.wf(),
    decreases pairs.len(),
{
    if pairs.len() > 0 && pairs[0].0@ != name {
        assert(forall|i: int|
            0 <= i < pairs.skip(1).len() ==> (#[trigger] pairs.skip(1)[i]) == pairs[i + 1]);
        lemma_spec_get_wf(pairs.skip(1), name);
    }
}

fn lookup_message_idx(msgs: &Vec<FluentMessage>, id: &str) -> (r: Option<usize>)
    ensures
        match r {
            Some(i) => i < msgs@.len() && lookup_message(msgs@, id@) == Some(msgs@[i as int]),
            None => lookup_message(msgs@, id@) is None,
        },
{
    let n = msgs.len();
    let mut i: usize = 0;
    proof {
        assert(msgs@.skip(0) =~= msgs@);
    }
    while i < n
        invariant
            i <= n,
            n == msgs@.len(),
            lookup_message(msgs@.skip(i as int), id@) == lookup_message(msgs@, id@),
        decreases n - i,
    {
        proof {
            assert(msgs@.skip(i as int)[0] == msgs@[i as int]);
            assert(msgs@.skip(i as int).skip(1) =~= msgs@.skip(i as int + 1));
        }
        if str_eq(msgs[i].id.as_str(), id) {
            return Some(i);
        }
        i = i + 1;
    }
    proof {
        assert(msgs@.skip(n as int) =~= Seq::<FluentMessage>::empty());
    }
    None
}

fn lookup_term_idx(terms: &Vec<FluentTerm>, id: &str) -> (r: Option<usize>)
    ensures
        match r {
            Some(i) => i < terms@.len() && lookup_term(terms@, id@) == Some(terms@[i as int]),
            None => lookup_term(terms@, id@) is None,
        },
{
    let n = terms.len();
    let mut i: usize = 0;
    proof {
        assert(terms@.skip(0) =~= terms@);
    }
    while i < n
        invariant
            i <= n,
            n == terms@.len(),
            lookup_term(terms@.skip(i as int), id@) == lookup_term(terms@, id@),
        decreases n - i,
    {
        proof {
            assert(terms@.skip(i as int)[0] == terms@[i as int]);
            assert(terms@.skip(i as int).skip(1) =~= terms@.skip(i as int + 1));
        }
        if str_eq(terms[i].id.as_str(), id) {
            return Some(i);
        }
        i = i + 1;
    }
    proof {
        assert(terms@.skip(n as int) =~= Seq::<FluentTerm>::empty());
    }
    None
}

proof fn lemma_lookup_attr_at(attrs: Seq<(String, Pattern)>, name: Seq<char>, d: int)
    requires
        0 <= d < attrs.len(),
        attrs[d].0@ == name,
        forall|j: int| 0 <= j < d ==> (#[trigger] attrs[j]).0@ != name,
    ensures
        lookup_attr(attrs, name) == Some(d),
    decreases d,
{
    if d > 0 {
        assert(forall|j: int|
            0 <= j < attrs.skip(1).len() ==> (#[trigger] attrs.skip(1)[j]) == attrs[j + 1]);
        lemma_lookup_attr_at(attrs.skip(1), name, d - 1);
    }
}

proof fn lemma_lookup_attr_none(attrs: Seq<(String, Pattern)>, name: Seq<char>)
    requires
        forall|j: int| 0 <= j < attrs.len() ==> (#[trigger] attrs[j]).0@ != name,
    ensures
        lookup_attr(attrs, name) is None,
    decreases attrs.len(),
{
    if attrs.len() > 0 {
        assert(forall|j: int|
            0 <= j < attrs.skip(1).len() ==> (#[trigger] attrs.skip(1)[j]) == attrs[j + 1]);
        lemma_lookup_attr_none(attrs.skip(1), name);
    }
}

fn lookup_attr_idx(attrs: &Vec<(String, Pattern)>, name: &str) -> (r: Option<usize>)
    ensures
        match r {
            Some(i) => lookup_attr(attrs@, name@) == Some(i as int) && i < attrs@.len(),
            None => lookup_attr(attrs@, name@) is None,
        },
{
    let n = attrs.len();
    let mut i: usize = 0;
    while i < n
        invariant
            i <= n,
            n == attrs@.len(),
            forall|j: int| 0 <= j < i ==> (#[trigger] attrs@[j]).0@ != name@,
        decreases n - i,
    {
        if str_eq(attrs[i].0.as_str(), name) {
            proof {
                lemma_lookup_attr_at(attrs@, name@, i as int);
            }
            return Some(i);
        }
        i = i + 1;
    }
    proof {
        lemma_lookup_attr_none(attrs@, name@);
    }
    None
}

pub fn lookup_function_exec(funcs: &Vec<(String, NativeFunction)>, name: &str) -> (r: Option<
    NativeFunction,
>)
    ensures
        r == lookup_function(funcs@, name@),
{
    let n = funcs.len();
    let mut i: usize = 0;
    proof {
        assert(funcs@.skip(0) =~= funcs@);
    }
    while i < n
        invariant
            i <= n,
            n == funcs@.len(),
            lookup_function(funcs@.skip(i as int), name@) == lookup_function(funcs@, name@),
        decreases n - i,
    {
        proof {
            assert(funcs@.skip(i as int)[0] == funcs@[i as int]);
            assert(funcs@.skip(i as int).skip(1) =~= funcs@.skip(i as int + 1));
        }
        if str_eq(funcs[i].0.as_str(), name) {
            return Some(funcs[i].1);
        }
        i = i + 1;
    }
    proof {
        assert(funcs@.skip(n as int) =~= Seq::<(String, NativeFunction)>::empty());
    }
    None
}

fn guard_contains(guard: &Vec<String>, id: &str) -> (r: bool)
    ensures
        r == guard_has(guard@, id@),
{
    let n = guard.len();
    let mut i: usize = 0;
    while i < n
        invariant
            i <= n,
            n == guard@.len(),
            forall|j: int| 0 <= j < i ==> (#[trigger] guard@[j])@ != id@,
        decreases n - i,
    {
        if str_eq(guard[i].as_str(), id) {
            return true;
        }
        i = i + 1;
    }
    false
}

/// Numeric equality of two decimals.
pub fn decimal_eq(a: &FluentNumber, b: &FluentNumber) -> (r: bool)
    ensures
        r == spec_decimal_eq(*a, *b),
{
    let ta = trim_zeros(a.mantissa, a.scale);
    let tb = trim_zeros(b.mantissa, b.scale);
    ta.0 == tb.0 && ta.1 == tb.1 && (a.negative == b.negative || ta.0 == 0)
}

/// Renders a value and appends its text and diagnostics.
fn stringify_value(
    v: &FluentValue,
    intls: &mut IntlLangMemoizer,
    errors: &mut Vec<FluentError>,
    out: &mut String,
)
    requires
        old(intls).wf(),
        v.wf(),
    ensures
        final(intls).wf(),
        final(intls).locale_view() == old(intls).locale_view(),
        final(out)@ == old(out)@ + stringify_spec(*v, old(intls).locale_view()).0,
        final(errors)@ == old(errors)@ + stringify_spec(*v, old(intls).locale_view()).1,
{
    match v {
        FluentValue::String(s) => {
            out.append(s.as_str());
        },
        FluentValue::Number(n) => {
            match n.as_string_checked(intls) {
                Some(s) => {
                    out.append(s.as_str());
                },
                None => {
                    errors.push(FluentError::FormatterConstructionFailure);
                },
            }
        },
        FluentValue::DateTime(d) => {
            match d.as_string_checked(intls) {
                Some(s) => {
                    out.append(s.as_str());
                },
                None => {
                    errors.push(FluentError::FormatterConstructionFailure);
                },
            }
        },
        FluentValue::Error => {},
        FluentValue::Absent => {},
    }
    proof {
        let sp = stringify_spec(*v, old(intls).locale_view());
        assert(final(out)@ =~= old(out)@ + sp.0);
        assert(final(errors)@ =~= old(errors)@ + sp.1);
    }
}

/// Applies a registered native function to its resolved arguments.
pub fn apply_native(f: NativeFunction, pos: &Vec<FluentValue>, named: &FluentArgs) -> (r:
    FluentValue)
    requires
        forall|i: int| 0 <= i < pos@.len() ==> (#[trigger] pos@[i]).wf(),
    ensures
        r == apply_native_spec(f, pos@, named@),
        r.wf(),
{
    match f {
        NativeFunction::Number => {
            if pos.len() != 1 {
                FluentValue::Error
            } else {
                match &pos[0] {
                    FluentValue::Number(n) => {
                        let mut n2 = n.duplicate();
                        n2.options.merge(named);
                        FluentValue::Number(n2)
                    },
                    _ => FluentValue::Error,
                }
            }
        },
        NativeFunction::Datetime => {
            if pos.len() != 1 {
                FluentValue::Error
            } else {
                match &pos[0] {
                    FluentValue::DateTime(d) => {
                        let mut d2 = *d;
                        d2.options.merge(named);
                        FluentValue::DateTime(d2)
                    },
                    _ => FluentValue::Error,
                }
            }
        },
    }
}

/// Resolves an expression in value position (a selector or call argument).
fn resolve_value(
    funcs: &Vec<(String, NativeFunction)>,
    args: &FluentArgs,
    e: &Expression,
    errors: &mut Vec<FluentError>,
) -> (r: FluentValue)
    requires
        expr_wf(*e),
        vals_wf(args@),
    ensures
        ({
            let sp = resolve_value_spec(funcs@, args@, *e);
            r == sp.0 && final(errors)@ == old(errors)@ + sp.1 && r.wf()
        }),
    decreases *e, 2int,
{
    let ghost sp = resolve_value_spec(funcs@, args@, *e);
    let r = match e {
        Expression::StringLiteral(s) => FluentValue::String(s.clone()),
        Expression::NumberLiteral(n) => FluentValue::Number(n.duplicate()),
        Expression::VariableReference(name) => match args.get(name.as_str()) {
            Some(v) => {
                proof {
                    lemma_spec_get_wf(args@, name@);
                }
                v.duplicate()
            },
            None => {
                errors.push(FluentError::UnknownVariable);
                FluentValue::Error
            },
        },
        Expression::FunctionReference(name, cargs) => {
            proof {
                assert(call_args_wf(*cargs));
            }
            let mut pos: Vec<FluentValue> = Vec::new();
            resolve_positional(funcs, args, &cargs.positional, 0, errors, &mut pos);
            let named = resolve_named(funcs, args, &cargs.named, errors);
            match lookup_function_exec(funcs, name.as_str()) {
                Some(f) => apply_native(f, &pos, &named),
                None => {
                    errors.push(FluentError::UnknownFunction);
                    FluentValue::Error
                },
            }
        },
        Expression::MessageReference(_, _) => {
            errors.push(FluentError::UnknownMessage);
            FluentValue::Error
        },
        Expression::TermReference(_, _, _) => {
            errors.push(FluentError::UnknownTerm);
            FluentValue::Error
        },
        Expression::Select(_, _) => FluentValue::Error,
    };
    proof {
        assert(final(errors)@ =~= old(errors)@ + sp.1);
    }
    r
}

/// Resolves the positional call arguments from `i` on, appending the values.
fn resolve_positional(
    funcs: &Vec<(String, NativeFunction)>,
    args: &FluentArgs,
    es: &Vec<Expression>,
    i: usize,
    errors: &mut Vec<FluentError>,
    out: &mut Vec<FluentValue>,
)
    requires
        forall|j: int| 0 <= j < es@.len() ==> expr_wf(#[trigger] es@[j]),
        vals_wf(args@),
        forall|j: int| 0 <= j < old(out)@.len() ==> (#[trigger] old(out)@[j]).wf(),
    ensures
        ({
            let sp = resolve_positional_spec(funcs@, args@, es@, i as int);
            final(out)@ == old(out)@ + sp.0 && final(errors)@ == old(errors)@ + sp.1 && (forall|
                j: int,
            |
                0 <= j < final(out)@.len() ==> (#[trigger] final(out)@[j]).wf())
        }),
    decreases es@, es@.len() - i, 0int,
{
    if i >= es.len() {
        proof {
            let sp = resolve_positional_spec(funcs@, args@, es@, i as int);
            assert(final(out)@ =~= old(out)@ + sp.0);
            assert(final(errors)@ =~= old(errors)@ + sp.1);
        }
        return ;
    }
    let v = resolve_value(funcs, args, &es[i], errors);
    let ghost mid_errors = errors@;
    out.push(v);
    resolve_positional(funcs, args, es, i + 1, errors, out);
    proof {
        let sp = resolve_positional_spec(funcs@, args@, es@, i as int);
        let sp1 = resolve_value_spec(funcs@, args@, es@[i as int]);
        let sp2 = resolve_positional_spec(funcs@, args@, es@, i as int + 1);
        assert(final(out)@ =~= old(out)@ + sp.0);
        assert(final(errors)@ =~= old(errors)@ + sp.1);
    }
}

/// Resolves the named call arguments, in order, into an argument map view.
fn resolve_named(
    funcs: &Vec<(String, NativeFunction)>,
    args: &FluentArgs,
    named: &Vec<NamedArgument>,
    errors: &mut Vec<FluentError>,
) -> (r: FluentArgs)
    requires
        forall|j: int| 0 <= j < named@.len() ==> expr_wf((#[trigger] named@[j]).value),
        vals_wf(args@),
    ensures
        ({
            let sp = resolve_named_spec(funcs@, args@, named@, 0);
            r@ == sp.0 && final(errors)@ == old(errors)@ + sp.1
        }),
    decreases named@, named@.len() + 1, 0int,
{
    let mut pairs: Vec<(String, FluentValue)> = Vec::new();
    resolve_named_into(funcs, args, named, 0, errors, &mut pairs);
    proof {
        assert(pairs@ =~= resolve_named_spec(funcs@, args@, named@, 0).0);
    }
    FluentArgs::from_vec(pairs)
}

fn resolve_named_into(
    funcs: &Vec<(String, NativeFunction)>,
    args: &FluentArgs,
    named: &Vec<NamedArgument>,
    i: usize,
    errors: &mut Vec<FluentError>,
    out: &mut Vec<(String, FluentValue)>,
)
    requires
        forall|j: int| 0 <= j < named@.len() ==> expr_wf((#[trigger] named@[j]).value),
        vals_wf(args@),
    ensures
        ({
            let sp = resolve_named_spec(funcs@, args@, named@, i as int);
            final(out)@ == old(out)@ + sp.0 && final(errors)@ == old(errors)@ + sp.1
        }),
    decreases named@, named@.len() - i, 0int,
{
    if i >= named.len() {
        proof {
            let sp = resolve_named_spec(funcs@, args@, named@, i as int);
            assert(final(out)@ =~= old(out)@ + sp.0);
            assert(final(errors)@ =~= old(errors)@ + sp.1);
        }
        return ;
    }
    let v = resolve_value(funcs, args, &named[i].value, errors);
    out.push((named[i].name.clone(), v));
    resolve_named_into(funcs, args, named, i + 1, errors, out);
    proof {
        let sp = resolve_named_spec(funcs@, args@, named@, i as int);
        assert(final(out)@ =~= old(out)@ + sp.0);
        assert(final(errors)@ =~= old(errors)@ + sp.1);
    }
}

} // verus!

verus! {

fn push_fb_var(name: &str, out: &mut String)
    ensures
        final(out)@ == old(out)@ + fb_var(name@),
{
    out.append("{$");
    out.append(name);
    out.append("}");
    proof {
        reveal_strlit("{$");
        reveal_strlit("}");
        assert("{$"@ =~= seq!['{', '$']);
        assert("}"@ =~= seq!['}']);
        assert(final(out)@ =~= old(out)@ + fb_var(name@));
    }
}

fn push_fb_ref(id: &str, attr: &Option<String>, out: &mut String)
    ensures
        final(out)@ == old(out)@ + fb_ref(id@, *attr),
{
    out.append("{");
    out.append(id);
    if let Some(a) = attr {
        out.append(".");
        out.append(a.as_str());
    }
    out.append("}");
    proof {
        reveal_strlit("{");
        reveal_strlit(".");
        reveal_strlit("}");
        assert("{"@ =~= seq!['{']);
        assert("."@ =~= seq!['.']);
        assert("}"@ =~= seq!['}']);
        assert(final(out)@ =~= old(out)@ + fb_ref(id@, *attr));
    }
}

fn push_fb_func(name: &str, out: &mut String)
    ensures
        final(out)@ == old(out)@ + fb_func(name@),
{
    out.append("{");
    out.append(name);
    out.append("()}");
    proof {
        reveal_strlit("{");
        reveal_strlit("()}");
        assert("{"@ =~= seq!['{']);
        assert("()}"@ =~= seq!['(', ')', '}']);
        assert(final(out)@ =~= old(out)@ + fb_func(name@));
    }
}

/// Picks the variant the selector chooses: the first matching one, else the
/// default, else the first one with a missing-default flag, else nothing.
fn find_chosen(
    variants: &Vec<Variant>,
    sel: &FluentValue,
    cat: Option<u8>,
    Ghost(locale): Ghost<Seq<char>>,
) -> (r: Option<(usize, bool)>)
    requires
        (sel matches FluentValue::Number(n) ==> ((cat is Some) == plural_rules_exist(locale, true)
            && (cat matches Some(c) ==> c == plural_category_of(
            locale,
            true,
            spec_shaped_standard(*n),
        )))),
    ensures
        match find_matching(variants@, 0, *sel, locale) {
            Some(j) => r matches Some(p) && p.0 as int == j && p.1 == false,
            None => match find_default(variants@, 0) {
                Some(j) => r matches Some(p) && p.0 as int == j && p.1 == false,
                None => if variants@.len() > 0 {
                    r matches Some(p) && p.0 == 0 && p.1 == true
                } else {
                    r is None
                },
            },
        },
        r matches Some(p) ==> p.0 < variants@.len(),
{
    proof {
        lemma_find_matching_range(variants@, 0, *sel, locale);
        lemma_find_default_range(variants@, 0);
    }
    let n = variants.len();
    let mut i: usize = 0;
    while i < n
        invariant
            i <= n,
            n == variants@.len(),
            find_matching(variants@, i as int, *sel, locale) == find_matching(
                variants@,
                0,
                *sel,
                locale,
            ),
            (sel matches FluentValue::Number(nn) ==> ((cat is Some) == plural_rules_exist(
                locale,
                true,
            ) && (cat matches Some(c) ==> c == plural_category_of(
                locale,
                true,
                spec_shaped_standard(*nn),
            )))),
        decreases n - i,
    {
        let m: bool = match (&variants[i].key, sel) {
            (VariantKey::NumberLiteral(k), FluentValue::Number(nn)) => decimal_eq(nn, k),
            (VariantKey::Identifier(name), FluentValue::Number(_)) => match cat {
                Some(c) => str_eq(category_name(c), name.as_str()),
                None => false,
            },
            (VariantKey::Identifier(name), FluentValue::String(s)) => str_eq(
                s.as_str(),
                name.as_str(),
            ),
            _ => false,
        };
        proof {
            assert(m == variant_matches(variants@[i as int].key, *sel, locale));
        }
        if m {
            proof {
                assert(find_matching(variants@, i as int, *sel, locale) == Some(i as int));
                assert(find_matching(variants@, 0, *sel, locale) == Some(i as int));
            }
            return Some((i, false));
        }
        i = i + 1;
    }
    proof {
        assert(find_matching(variants@, n as int, *sel, locale) is None);
    }
    let mut i: usize = 0;
    while i < n
        invariant
            i <= n,
            n == variants@.len(),
            find_matching(variants@, 0, *sel, locale) is None,
            find_default(variants@, i as int) == find_default(variants@, 0),
        decreases n - i,
    {
        if variants[i].default {
            proof {
                assert(find_default(variants@, i as int) == Some(i as int));
            }
            return Some((i, false));
        }
        i = i + 1;
    }
    proof {
        assert(find_default(variants@, n as int) is None);
    }
    if n > 0 {
        Some((0, true))
    } else {
        None
    }
}

/// Resolves a pattern, appending its text and diagnostics: the entry point of
/// the resolution engine for one pattern under one bundle state.
pub fn resolve_pattern(
    msgs: &Vec<FluentMessage>,
    terms: &Vec<FluentTerm>,
    funcs: &Vec<(String, NativeFunction)>,
    isolating: bool,
    intls: &mut IntlLangMemoizer,
    args: &FluentArgs,
    p: &Pattern,
    guard: &mut Vec<String>,
    budget: u32,
    errors: &mut Vec<FluentError>,
    out: &mut String,
)
    requires
        old(intls).wf(),
        pattern_wf(*p),
        vals_wf(args@),
        catalog_wf(msgs@, terms@),
    ensures
        final(intls).wf(),
        final(intls).locale_view() == old(intls).locale_view(),
        final(guard)@ == old(guard)@,
        ({
            let sp = resolve_pattern_spec(
                msgs@,
                terms@,
                funcs@,
                old(intls).locale_view(),
                isolating,
                args@,
                *p,
                old(guard)@,
                budget as nat,
            );
            final(out)@ == old(out)@ + sp.0 && final(errors)@ == old(errors)@ + sp.1
        }),
    decreases budget, *p, 0int,
{
    let isolate = isolating && p.elements.len() > 2;
    resolve_elements(msgs, terms, funcs, isolating, intls, args, &p.elements, 0, isolate, guard, budget, errors, out);
}

fn resolve_elements(
    msgs: &Vec<FluentMessage>,
    terms: &Vec<FluentTerm>,
    funcs: &Vec<(String, NativeFunction)>,
    isolating: bool,
    intls: &mut IntlLangMemoizer,
    args: &FluentArgs,
    elems: &Vec<PatternElement>,
    i: usize,
    isolate: bool,
    guard: &mut Vec<String>,
    budget: u32,
    errors: &mut Vec<FluentError>,
    out: &mut String,
)
    requires
        old(intls).wf(),
        forall|j: int| 0 <= j < elems@.len() ==> element_wf(#[trigger] elems@[j]),
        vals_wf(args@),
        catalog_wf(msgs@, terms@),
    ensures
        final(intls).wf(),
        final(intls).locale_view() == old(intls).locale_view(),
        final(guard)@ == old(guard)@,
        ({
            let sp = resolve_elements_spec(
                msgs@,
                terms@,
                funcs@,
                old(intls).locale_view(),
                isolating,
                args@,
                elems@,
                i as int,
                isolate,
                old(guard)@,
                budget as nat,
            );
            final(out)@ == old(out)@ + sp.0 && final(errors)@ == old(errors)@ + sp.1
        }),
    decreases budget, elems@, elems@.len() - i,
{
    let ghost sp = resolve_elements_spec(
        msgs@,
        terms@,
        funcs@,
        old(intls).locale_view(),
        isolating,
        args@,
        elems@,
        i as int,
        isolate,
        old(guard)@,
        budget as nat,
    );
    if i >= elems.len() {
        proof {
            assert(final(out)@ =~= old(out)@ + sp.0);
            assert(final(errors)@ =~= old(errors)@ + sp.1);
        }
        return ;
    }
    match &elems[i] {
        PatternElement::Text(t) => {
            out.append(t.as_str());
        },
        PatternElement::Placeable(x) => {
            if isolate {
                out.append("\u{2068}");
                proof {
                    reveal_strlit("\u{2068}");
                    assert("\u{2068}"@ =~= seq!['\u{2068}']);
                }
            }
            write_expr(msgs, terms, funcs, isolating, intls, args, x, guard, budget, errors, out);
            if isolate {
                out.append("\u{2069}");
                proof {
                    reveal_strlit("\u{2069}");
                    assert("\u{2069}"@ =~= seq!['\u{2069}']);
                }
            }
        },
    }
    resolve_elements(
        msgs,
        terms,
        funcs,
        isolating,
        intls,
        args,
        elems,
        i + 1,
        isolate,
        guard,
        budget,
        errors,
        out,
    );
    proof {
        assert(final(out)@ =~= old(out)@ + sp.0);
        assert(final(errors)@ =~= old(errors)@ + sp.1);
    }
}

/// Writes one placeable expression, appending its text and diagnostics.
#[verifier::rlimit(100)]
fn write_expr(
    msgs: &Vec<FluentMessage>,
    terms: &Vec<FluentTerm>,
    funcs: &Vec<(String, NativeFunction)>,
    isolating: bool,
    intls: &mut IntlLangMemoizer,
    args: &FluentArgs,
    e: &Expression,
    guard: &mut Vec<String>,
    budget: u32,
    errors: &mut Vec<FluentError>,
    out: &mut String,
)
    requires
        old(intls).wf(),
        expr_wf(*e),
        vals_wf(args@),
        catalog_wf(msgs@, terms@),
    ensures
        final(intls).wf(),
        final(intls).locale_view() == old(intls).locale_view(),
        final(guard)@ == old(guard)@,
        ({
            let sp = write_expr_spec(
                msgs@,
                terms@,
                funcs@,
                old(intls).locale_view(),
                isolating,
                args@,
                *e,
                old(guard)@,
                budget as nat,
            );
            final(out)@ == old(out)@ + sp.0 && final(errors)@ == old(errors)@ + sp.1
        }),
    decreases budget, *e, 1int,
{
    let ghost sp = write_expr_spec(
        msgs@,
        terms@,
        funcs@,
        old(intls).locale_view(),
        isolating,
        args@,
        *e,
        old(guard)@,
        budget as nat,
    );
    match e {
        Expression::StringLiteral(s) => {
            out.append(s.as_str());
            proof {
                assert(final(out)@ =~= old(out)@ + sp.0);
                assert(final(errors)@ =~= old(errors)@ + sp.1);
            }
        },
        Expression::NumberLiteral(n) => {
            let v = FluentValue::Number(n.duplicate());
            stringify_value(&v, intls, errors, out);
        },
        Expression::VariableReference(name) => {
            match args.get(name.as_str()) {
                Some(v) => {
                    proof {
                        lemma_spec_get_wf(args@, name@);
                    }
                    let v2 = v.duplicate();
                    stringify_value(&v2, intls, errors, out);
                },
                None => {
                    push_fb_var(name.as_str(), out);
                    errors.push(FluentError::UnknownVariable);
                    proof {
                        assert(final(errors)@ =~= old(errors)@ + sp.1);
                    }
                },
            }
        },
        Expression::MessageReference(_, _) => {
            write_msg_ref(msgs, terms, funcs, isolating, intls, args, e, guard, budget, errors, out);
        },
        Expression::TermReference(_, _, _) => {
            write_term_ref(msgs, terms, funcs, isolating, intls, args, e, guard, budget, errors, out);
        },
        Expression::FunctionReference(name, cargs) => {
            proof {
                assert(call_args_wf(*cargs));
            }
            let mut pos: Vec<FluentValue> = Vec::new();
            resolve_positional(funcs, args, &cargs.positional, 0, errors, &mut pos);
            let named = resolve_named(funcs, args, &cargs.named, errors);
            match lookup_function_exec(funcs, name.as_str()) {
                None => {
                    push_fb_func(name.as_str(), out);
                    errors.push(FluentError::UnknownFunction);
                    proof {
                        assert(final(errors)@ =~= old(errors)@ + sp.1);
                    }
                },
                Some(f) => {
                    let v = apply_native(f, &pos, &named);
                    stringify_value(&v, intls, errors, out);
                    proof {
                        assert(final(out)@ =~= old(out)@ + sp.0);
                        assert(final(errors)@ =~= old(errors)@ + sp.1);
                    }
                },
            }
        },
        Expression::Select(_, _) => {
            write_select(msgs, terms, funcs, isolating, intls, args, e, guard, budget, errors, out);
        },
    }
}

#[verifier::rlimit(100)]
fn write_msg_ref(
    msgs: &Vec<FluentMessage>,
    terms: &Vec<FluentTerm>,
    funcs: &Vec<(String, NativeFunction)>,
    isolating: bool,
    intls: &mut IntlLangMemoizer,
    args: &FluentArgs,
    e: &Expression,
    guard: &mut Vec<String>,
    budget: u32,
    errors: &mut Vec<FluentError>,
    out: &mut String,
)
    requires
        old(intls).wf(),
        expr_wf(*e),
        vals_wf(args@),
        catalog_wf(msgs@, terms@),
        *e matches Expression::MessageReference(_, _),
    ensures
        final(intls).wf(),
        final(intls).locale_view() == old(intls).locale_view(),
        final(guard)@ == old(guard)@,
        ({
            let sp = write_expr_spec(
                msgs@,
                terms@,
                funcs@,
                old(intls).locale_view(),
                isolating,
                args@,
                *e,
                old(guard)@,
                budget as nat,
            );
            final(out)@ == old(out)@ + sp.0 && final(errors)@ == old(errors)@ + sp.1
        }),
    decreases budget, *e, 0int,
{
    let ghost sp = write_expr_spec(
        msgs@,
        terms@,
        funcs@,
        old(intls).locale_view(),
        isolating,
        args@,
        *e,
        old(guard)@,
        budget as nat,
    );
    match e {
        Expression::MessageReference(id, attr) => {
            if guard_contains(guard, id.as_str()) {
                push_fb_ref(id.as_str(), attr, out);
                errors.push(FluentError::CyclicReference);
                proof {
                    assert(final(errors)@ =~= old(errors)@ + sp.1);
                }
            } else if budget == 0 {
                push_fb_ref(id.as_str(), attr, out);
                errors.push(FluentError::TooManyPlaceables);
                proof {
                    assert(final(errors)@ =~= old(errors)@ + sp.1);
                }
            } else {
                match lookup_message_idx(msgs, id.as_str()) {
                    None => {
                        push_fb_ref(id.as_str(), attr, out);
                        errors.push(FluentError::UnknownMessage);
                        proof {
                            assert(final(errors)@ =~= old(errors)@ + sp.1);
                        }
                    },
                    Some(mi) => {
                        let m = &msgs[mi];
                        proof {
                            assert(message_wf(msgs@[mi as int]));
                        }
                        let chosen: Option<&Pattern> = match attr {
                            None => match &m.value {
                                Some(pp) => Some(pp),
                                None => None,
                            },
                            Some(a) => match lookup_attr_idx(&m.attributes, a.as_str()) {
                                Some(j) => Some(&m.attributes[j].1),
                                None => None,
                            },
                        };
                        match chosen {
                            Some(pp) => {
                                guard.push(m.id.clone());
                                resolve_pattern(
                                    msgs,
                                    terms,
                                    funcs,
                                    isolating,
                                    intls,
                                    args,
                                    pp,
                                    guard,
                                    budget - 1,
                                    errors,
                                    out,
                                );
                                let popped = guard.pop();
                                proof {
                                    assert(guard@ =~= old(guard)@);
                                }
                            },
                            None => {
                                push_fb_ref(id.as_str(), attr, out);
                                if attr.is_some() {
                                    errors.push(FluentError::UnknownAttribute);
                                } else {
                                    errors.push(FluentError::UnknownMessage);
                                }
                                proof {
                                    assert(final(errors)@ =~= old(errors)@ + sp.1);
                                }
                            },
                        }
                    },
                }
            }
        },
        _ => {
            proof {
                assert(false);
            }
        },
    }
}

#[verifier::rlimit(100)]
fn write_term_ref(
    msgs: &Vec<FluentMessage>,
    terms: &Vec<FluentTerm>,
    funcs: &Vec<(String, NativeFunction)>,
    isolating: bool,
    intls: &mut IntlLangMemoizer,
    args: &FluentArgs,
    e: &Expression,
    guard: &mut Vec<String>,
    budget: u32,
    errors: &mut Vec<FluentError>,
    out: &mut String,
)
    requires
        old(intls).wf(),
        expr_wf(*e),
        vals_wf(args@),
        catalog_wf(msgs@, terms@),
        *e matches Expression::TermReference(_, _, _),
    ensures
        final(intls).wf(),
        final(intls).locale_view() == old(intls).locale_view(),
        final(guard)@ == old(guard)@,
        ({
            let sp = write_expr_spec(
                msgs@,
                terms@,
                funcs@,
                old(intls).locale_view(),
                isolating,
                args@,
                *e,
                old(guard)@,
                budget as nat,
            );
            final(out)@ == old(out)@ + sp.0 && final(errors)@ == old(errors)@ + sp.1
        }),
    decreases budget, *e, 0int,
{
    let ghost sp = write_expr_spec(
        msgs@,
        terms@,
        funcs@,
        old(intls).locale_view(),
        isolating,
        args@,
        *e,
        old(guard)@,
        budget as nat,
    );
    match e {
        Expression::TermReference(id, attr, cargs) => {
            if guard_contains(guard, id.as_str()) {
                push_fb_ref(id.as_str(), attr, out);
                errors.push(FluentError::CyclicReference);
                proof {
                    assert(final(errors)@ =~= old(errors)@ + sp.1);
                }
            } else if budget == 0 {
                push_fb_ref(id.as_str(), attr, out);
                errors.push(FluentError::TooManyPlaceables);
                proof {
                    assert(final(errors)@ =~= old(errors)@ + sp.1);
                }
            } else {
                match lookup_term_idx(terms, id.as_str()) {
                    None => {
                        push_fb_ref(id.as_str(), attr, out);
                        errors.push(FluentError::UnknownTerm);
                        proof {
                            assert(final(errors)@ =~= old(errors)@ + sp.1);
                        }
                    },
                    Some(ti) => {
                        let t = &terms[ti];
                        proof {
                            assert(term_wf(terms@[ti as int]));
                            assert(call_args_wf(*cargs));
                        }
                        let chosen: Option<&Pattern> = match attr {
                            None => Some(&t.value),
                            Some(a) => match lookup_attr_idx(&t.attributes, a.as_str()) {
                                Some(j) => Some(&t.attributes[j].1),
                                None => None,
                            },
                        };
                        match chosen {
                            Some(pp) => {
                                let locals = resolve_named(funcs, args, &cargs.named, errors);
                                proof {
                                    lemma_resolve_named_wf(funcs@, args@, cargs.named@, 0);
                                }
                                guard.push(t.id.clone());
                                resolve_pattern(
                                    msgs,
                                    terms,
                                    funcs,
                                    isolating,
                                    intls,
                                    &locals,
                                    pp,
                                    guard,
                                    budget - 1,
                                    errors,
                                    out,
                                );
                                let popped = guard.pop();
                                proof {
                                    assert(guard@ =~= old(guard)@);
                                    assert(final(errors)@ =~= old(errors)@ + sp.1);
                                }
                            },
                            None => {
                                push_fb_ref(id.as_str(), attr, out);
                                errors.push(FluentError::UnknownAttribute);
                                proof {
                                    assert(final(errors)@ =~= old(errors)@ + sp.1);
                                }
                            },
                        }
                    },
                }
            }
        },
        _ => {
            proof {
                assert(false);
            }
        },
    }
}

#[verifier::rlimit(100)]
fn write_select(
    msgs: &Vec<FluentMessage>,
    terms: &Vec<FluentTerm>,
    funcs: &Vec<(String, NativeFunction)>,
    isolating: bool,
    intls: &mut IntlLangMemoizer,
    args: &FluentArgs,
    e: &Expression,
    guard: &mut Vec<String>,
    budget: u32,
    errors: &mut Vec<FluentError>,
    out: &mut String,
)
    requires
        old(intls).wf(),
        expr_wf(*e),
        vals_wf(args@),
        catalog_wf(msgs@, terms@),
        *e matches Expression::Select(_, _),
    ensures
        final(intls).wf(),
        final(intls).locale_view() == old(intls).locale_view(),
        final(guard)@ == old(guard)@,
        ({
            let sp = write_expr_spec(
                msgs@,
                terms@,
                funcs@,
                old(intls).locale_view(),
                isolating,
                args@,
                *e,
                old(guard)@,
                budget as nat,
            );
            final(out)@ == old(out)@ + sp.0 && final(errors)@ == old(errors)@ + sp.1
        }),
    decreases budget, *e, 0int,
{
    let ghost sp = write_expr_spec(
        msgs@,
        terms@,
        funcs@,
        old(intls).locale_view(),
        isolating,
        args@,
        *e,
        old(guard)@,
        budget as nat,
    );
    match e {
        Expression::Select(sel, variants) => {
            let sv = resolve_value(funcs, args, sel, errors);
            let cat: Option<u8> = match &sv {
                FluentValue::Number(n) => {
                    let shaped = n.to_shaped_standard();
                    intls.plural_category(true, shaped.as_str())
                },
                _ => None,
            };
            let chosen = find_chosen(variants, &sv, cat, Ghost(old(intls).locale_view()));
            proof {
                lemma_find_matching_range(variants@, 0, sv, old(intls).locale_view());
                lemma_find_default_range(variants@, 0);
            }
            match chosen {
                Some((j, missing)) => {
                    if missing {
                        errors.push(FluentError::MissingDefaultVariant);
                    }
                    proof {
                        assert(variant_wf(variants@[j as int]));
                    }
                    resolve_pattern(
                        msgs,
                        terms,
                        funcs,
                        isolating,
                        intls,
                        args,
                        &variants[j].value,
                        guard,
                        budget,
                        errors,
                        out,
                    );
                    proof {
                        assert(final(out)@ =~= old(out)@ + sp.0);
                        assert(final(errors)@ =~= old(errors)@ + sp.1);
                    }
                },
                None => {
                    errors.push(FluentError::MissingDefaultVariant);
                    proof {
                        assert(final(out)@ =~= old(out)@ + sp.0);
                        assert(final(errors)@ =~= old(errors)@ + sp.1);
                    }
                },
            }
        },
        _ => {
            proof {
                assert(false);
            }
        },
    }
}

proof fn lemma_resolve_named_wf(
    funcs: Seq<(String, NativeFunction)>,
    args: Seq<(String, FluentValue)>,
    named: Seq<NamedArgument>,
    i: int,
)
    requires
        vals_wf(args),
        forall|j: int| 0 <= j < named.len() ==> expr_wf((#[trigger] named[j]).value),
    ensures
        vals_wf(resolve_named_spec(funcs, args, named, i).0),
    decreases named, named.len() - i,
{
    if 0 <= i < named.len() {
        lemma_resolve_named_wf(funcs, args, named, i + 1);
        lemma_resolve_value_wf(funcs, args, named[i].value);
    }
}

proof fn lemma_resolve_value_wf(
    funcs: Seq<(String, NativeFunction)>,
    args: Seq<(String, FluentValue)>,
    e: Expression,
)
    requires
        vals_wf(args),
        expr_wf(e),
    ensures
        resolve_value_spec(funcs, args, e).0.wf(),
    decreases e, 3int,
{
    match e {
        Expression::VariableReference(name) => {
            lemma_spec_get_wf(args, name@);
            match spec_get(args, name@) {
                Some(v) => {
                    assert(v.wf());
                },
                None => {},
            }
        },
        Expression::FunctionReference(name, cargs) => {
            assert(call_args_wf(cargs));
            lemma_resolve_positional_wf(funcs, args, cargs.positional@, 0);
            let pos = resolve_positional_spec(funcs, args, cargs.positional@, 0).0;
            match lookup_function(funcs, name@) {
                Some(f) => {
                    if pos.len() == 1 {
                        assert(pos[0].wf());
                    }
                },
                None => {},
            }
        },
        _ => {},
    }
}

proof fn lemma_resolve_positional_wf(
    funcs: Seq<(String, NativeFunction)>,
    args: Seq<(String, FluentValue)>,
    es: Seq<Expression>,
    i: int,
)
    requires
        vals_wf(args),
        forall|j: int| 0 <= j < es.len() ==> expr_wf(#[trigger] es[j]),
    ensures
        forall|j: int|
            0 <= j < resolve_positional_spec(funcs, args, es, i).0.len() ==> (
            #[trigger] resolve_positional_spec(funcs, args, es, i).0[j]).wf(),
    decreases es, es.len() - i,
{
    if 0 <= i < es.len() {
        lemma_resolve_positional_wf(funcs, args, es, i + 1);
        lemma_resolve_value_wf(funcs, args, es[i]);
        assert(resolve_positional_spec(funcs, args, es, i).0 =~= seq![
            resolve_value_spec(funcs, args, es[i]).0] + resolve_positional_spec(
            funcs,
            args,
            es,
            i + 1,
        ).0);
    }
}

} // verus!

verus! {

/// The index of the stored message with this id.
pub fn lookup_message_idx_pub(msgs: &Vec<FluentMessage>, id: &str) -> (r: Option<usize>)
    ensures
        match r {
            Some(i) => i < msgs@.len() && lookup_message(msgs@, id@) == Some(msgs@[i as int]),
            None => lookup_message(msgs@, id@) is None,
        },
{
    lookup_message_idx(msgs, id)
}

/// The stored message with this id, by reference.
pub fn lookup_message_ref<'a>(msgs: &'a Vec<FluentMessage>, id: &str) -> (r: Option<
    &'a FluentMessage,
>)
    ensures
        match lookup_message(msgs@, id@) {
            Some(m) => r matches Some(rm) && *rm == m,
            None => r is None,
        },
{
    match lookup_message_idx(msgs, id) {
        Some(i) => Some(&msgs[i]),
        None => None,
    }
}

/// The stored term with this id, by reference.
pub fn lookup_term_ref<'a>(terms: &'a Vec<FluentTerm>, id: &str) -> (r: Option<&'a FluentTerm>)
    ensures
        match lookup_term(terms@, id@) {
            Some(t) => r matches Some(rt) && *rt == t,
            None => r is None,
        },
{
    match lookup_term_idx(terms, id) {
        Some(i) => Some(&terms[i]),
        None => None,
    }
}

} // verus!
