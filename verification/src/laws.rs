//! The stated laws of the resolution engine, proved over the resolution
//! model: literal patterns resolve verbatim without diagnostics, absent
//! variables produce exactly their fallback token and one diagnostic,
//! self-reference stops with a cyclic-reference diagnostic, and resolution is
//! a pure function of its inputs, so repeating a call repeats its output and
//! diagnostics exactly.

use vstd::prelude::*;

use crate::args::FluentArgs;
use crate::ast::FluentMessage;
use crate::ast::FluentTerm;
use crate::ast::Expression;
use crate::ast::Pattern;
use crate::ast::PatternElement;
use crate::errors::FluentError;
use crate::resolver::fb_var;
use crate::resolver::fb_ref;
use crate::resolver::guard_has;
use crate::resolver::lookup_message;
use crate::resolver::resolve_elements_spec;
use crate::resolver::resolve_pattern_spec;
use crate::resolver::write_expr_spec;
use crate::resolver::NativeFunction;
use crate::args::spec_get;
use crate::value::FluentValue;

verus! {

/// Text concatenated from the pattern's elements after `i`, when every
/// element is literal text.
pub open spec fn texts_of(elems: Seq<PatternElement>, i: int) -> Seq<char>
    decreases elems.len() - i,
{
    if i < 0 || i >= elems.len() {
        Seq::<char>::empty()
    } else {
        (match elems[i] {
            PatternElement::Text(t) => t@,
            PatternElement::Placeable(_) => Seq::<char>::empty(),
        }) + texts_of(elems, i + 1)
    }
}

/// Resolving a pattern with no placeables returns its literal text unchanged,
/// with no diagnostics, whatever the catalog, functions, locale, isolation
/// flag, arguments, guard and budget are.
pub proof fn lemma_literal_pattern_verbatim(
    msgs: Seq<FluentMessage>,
    terms: Seq<FluentTerm>,
    funcs: Seq<(String, NativeFunction)>,
    locale: Seq<char>,
    isolating: bool,
    args: Seq<(String, FluentValue)>,
    p: Pattern,
    guard: Seq<String>,
    budget: nat,
)
    requires
        forall|i: int| 0 <= i < p.elements@.len() ==> (#[trigger] p.elements@[i]) is Text,
    ensures
        resolve_pattern_spec(msgs, terms, funcs, locale, isolating, args, p, guard, budget) == (
        texts_of(p.elements@, 0), Seq::<FluentError>::empty()),
{
    let isolate = isolating && p.elements@.len() > 2;
    lemma_literal_elements(msgs, terms, funcs, locale, isolating, args, p.elements@, 0, isolate, guard, budget);
}

proof fn lemma_literal_elements(
    msgs: Seq<FluentMessage>,
    terms: Seq<FluentTerm>,
    funcs: Seq<(String, NativeFunction)>,
    locale: Seq<char>,
    isolating: bool,
    args: Seq<(String, FluentValue)>,
    elems: Seq<PatternElement>,
    i: int,
    isolate: bool,
    guard: Seq<String>,
    budget: nat,
)
    requires
        forall|j: int| 0 <= j < elems.len() ==> (#[trigger] elems[j]) is Text,
        i >= 0,
    ensures
        resolve_elements_spec(
            msgs,
            terms,
            funcs,
            locale,
            isolating,
            args,
            elems,
            i,
            isolate,
            guard,
            budget,
        ) == (texts_of(elems, i), Seq::<FluentError>::empty()),
    decreases elems.len() - i,
{
    if i < elems.len() {
        lemma_literal_elements(
            msgs,
            terms,
            funcs,
            locale,
            isolating,
            args,
            elems,
            i + 1,
            isolate,
            guard,
            budget,
        );
        assert(Seq::<FluentError>::empty() + Seq::<FluentError>::empty() =~= Seq::<
            FluentError,
        >::empty());
    } else {
        assert(texts_of(elems, i) =~= Seq::<char>::empty());
    }
}

/// A variable reference whose name is absent from the arguments writes
/// exactly the fallback token `{$name}` and raises exactly one
/// unknown-variable diagnostic.
pub proof fn lemma_unknown_variable(
    msgs: Seq<FluentMessage>,
    terms: Seq<FluentTerm>,
    funcs: Seq<(String, NativeFunction)>,
    locale: Seq<char>,
    isolating: bool,
    args: Seq<(String, FluentValue)>,
    name: String,
    guard: Seq<String>,
    budget: nat,
)
    requires
        spec_get(args, name@) is None,
    ensures
        write_expr_spec(
            msgs,
            terms,
            funcs,
            locale,
            isolating,
            args,
            Expression::VariableReference(name),
            guard,
            budget,
        ) == (fb_var(name@), seq![FluentError::UnknownVariable]),
{
}

/// A message that references itself directly resolves without recursing
/// forever (the model is a total function) and raises a cyclic-reference
/// diagnostic: resolving its value writes the reference's fallback token and
/// exactly the cyclic-reference diagnostic.
pub proof fn lemma_direct_cycle_reports(
    msgs: Seq<FluentMessage>,
    terms: Seq<FluentTerm>,
    funcs: Seq<(String, NativeFunction)>,
    locale: Seq<char>,
    isolating: bool,
    args: Seq<(String, FluentValue)>,
    m: FluentMessage,
    budget: nat,
)
    requires
        lookup_message(msgs, m.id@) == Some(m),
        m.value matches Some(p) && p.elements@ =~= seq![
            PatternElement::Placeable(Expression::MessageReference(m.id, None)),
        ],
        budget >= 1,
    ensures
        resolve_pattern_spec(
            msgs,
            terms,
            funcs,
            locale,
            isolating,
            args,
            m.value.unwrap(),
            Seq::<String>::empty(),
            budget,
        ) == (fb_ref(m.id@, Option::<String>::None), seq![FluentError::CyclicReference]),
{
    let p = m.value.unwrap();
    let e = Expression::MessageReference(m.id, Option::<String>::None);
    let guard0 = Seq::<String>::empty();
    assert(!guard_has(guard0, m.id@));
    let guard1 = guard0.push(m.id);
    assert(guard_has(guard1, m.id@)) by {
        assert(guard1[0]@ == m.id@);
    }
    let inner = write_expr_spec(
        msgs,
        terms,
        funcs,
        locale,
        isolating,
        args,
        e,
        guard1,
        (budget - 1) as nat,
    );
    assert(inner == (fb_ref(m.id@, Option::<String>::None), seq![FluentError::CyclicReference]));
    let inner_p = resolve_pattern_spec(
        msgs,
        terms,
        funcs,
        locale,
        isolating,
        args,
        p,
        guard1,
        (budget - 1) as nat,
    );
    assert(inner_p == resolve_elements_spec(
        msgs,
        terms,
        funcs,
        locale,
        isolating,
        args,
        p.elements@,
        0,
        isolating && p.elements@.len() > 2,
        guard1,
        (budget - 1) as nat,
    ));
    assert(inner_p.0 =~= fb_ref(m.id@, Option::<String>::None) + Seq::<char>::empty());
    assert(inner_p.0 =~= fb_ref(m.id@, Option::<String>::None));
    assert(inner_p.1 =~= seq![FluentError::CyclicReference]);
    let outer = resolve_pattern_spec(
        msgs,
        terms,
        funcs,
        locale,
        isolating,
        args,
        p,
        guard0,
        budget,
    );
    assert(outer.0 =~= fb_ref(m.id@, Option::<String>::None));
    assert(outer.1 =~= seq![FluentError::CyclicReference]);
}

/// A pair of messages that reference each other terminates too: resolving the
/// first message's value follows the chain once, stops at the re-entry, and
/// reports exactly one cyclic-reference diagnostic, leaving the re-entered
/// reference's fallback token in the output.
pub proof fn lemma_chain_cycle_reports(
    msgs: Seq<FluentMessage>,
    terms: Seq<FluentTerm>,
    funcs: Seq<(String, NativeFunction)>,
    locale: Seq<char>,
    isolating: bool,
    args: Seq<(String, FluentValue)>,
    a: FluentMessage,
    b: FluentMessage,
    budget: nat,
)
    requires
        lookup_message(msgs, a.id@) == Some(a),
        lookup_message(msgs, b.id@) == Some(b),
        a.id@ != b.id@,
        a.value matches Some(p) && p.elements@ =~= seq![
            PatternElement::Placeable(Expression::MessageReference(b.id, None)),
        ],
        b.value matches Some(p) && p.elements@ =~= seq![
            PatternElement::Placeable(Expression::MessageReference(a.id, None)),
        ],
        budget >= 2,
    ensures
        resolve_pattern_spec(
            msgs,
            terms,
            funcs,
            locale,
            isolating,
            args,
            a.value.unwrap(),
            Seq::<String>::empty(),
            budget,
        ) == (fb_ref(b.id@, Option::<String>::None), seq![FluentError::CyclicReference]),
{
    let pa = a.value.unwrap();
    let pb = b.value.unwrap();
    let guard0 = Seq::<String>::empty();
    let guard1 = guard0.push(b.id);
    let guard2 = guard1.push(a.id);
    assert(!guard_has(guard0, b.id@));
    assert(!guard_has(guard1, a.id@)) by {
        assert(forall|i: int| 0 <= i < guard1.len() ==> (#[trigger] guard1[i])@ != a.id@) by {
            assert(guard1[0] == b.id);
        }
    }
    assert(guard_has(guard2, b.id@)) by {
        assert(guard2[0]@ == b.id@);
    }
    // Innermost: the reference back to the first message's target re-enters.
    let e_b = Expression::MessageReference(b.id, Option::<String>::None);
    let w2 = write_expr_spec(msgs, terms, funcs, locale, isolating, args, e_b, guard2, (budget
        - 2) as nat);
    assert(w2 == (fb_ref(b.id@, Option::<String>::None), seq![FluentError::CyclicReference]));
    // The first message's pattern, reached from the second.
    let r2 = resolve_pattern_spec(
        msgs,
        terms,
        funcs,
        locale,
        isolating,
        args,
        pa,
        guard2,
        (budget - 2) as nat,
    );
    assert(r2.0 =~= fb_ref(b.id@, Option::<String>::None) + Seq::<char>::empty());
    assert(r2.0 =~= fb_ref(b.id@, Option::<String>::None));
    assert(r2.1 =~= seq![FluentError::CyclicReference]);
    // The second message's pattern, reached from the first.
    let r1 = resolve_pattern_spec(
        msgs,
        terms,
        funcs,
        locale,
        isolating,
        args,
        pb,
        guard1,
        (budget - 1) as nat,
    );
    assert(r1.0 =~= fb_ref(b.id@, Option::<String>::None));
    assert(r1.1 =~= seq![FluentError::CyclicReference]);
    // The outermost resolution of the first message's value.
    let r0 = resolve_pattern_spec(
        msgs,
        terms,
        funcs,
        locale,
        isolating,
        args,
        pa,
        guard0,
        budget,
    );
    assert(r0.0 =~= fb_ref(b.id@, Option::<String>::None));
    assert(r0.1 =~= seq![FluentError::CyclicReference]);
}

/// With isolation on and a pattern of three or more segments, every
/// substituted placeable is bracketed in the output: the whole rendering
/// splits into a prefix, the first-strong-isolate mark, that placeable's own
/// rendered text, the pop-directional-isolate mark, and a suffix. With
/// isolation off no placeable is wrapped (the model wraps only under this
/// flag).
pub proof fn lemma_isolation_marks(
    msgs: Seq<FluentMessage>,
    terms: Seq<FluentTerm>,
    funcs: Seq<(String, NativeFunction)>,
    locale: Seq<char>,
    args: Seq<(String, FluentValue)>,
    p: Pattern,
    guard: Seq<String>,
    budget: nat,
    i: int,
)
    requires
        p.elements@.len() > 2,
        0 <= i < p.elements@.len(),
        p.elements@[i] is Placeable,
    ensures
        exists|pre: Seq<char>, post: Seq<char>|
            resolve_pattern_spec(msgs, terms, funcs, locale, true, args, p, guard, budget).0
                == pre + (seq!['\u{2068}'] + write_expr_spec(
                msgs,
                terms,
                funcs,
                locale,
                true,
                args,
                p.elements@[i]->Placeable_0,
                guard,
                budget,
            ).0 + seq!['\u{2069}']) + post,
{
    lemma_isolated_from(msgs, terms, funcs, locale, args, p.elements@, 0, i, guard, budget);
}

proof fn lemma_isolated_from(
    msgs: Seq<FluentMessage>,
    terms: Seq<FluentTerm>,
    funcs: Seq<(String, NativeFunction)>,
    locale: Seq<char>,
    args: Seq<(String, FluentValue)>,
    elems: Seq<PatternElement>,
    j: int,
    i: int,
    guard: Seq<String>,
    budget: nat,
)
    requires
        0 <= j <= i < elems.len(),
        elems[i] is Placeable,
    ensures
        exists|pre: Seq<char>, post: Seq<char>|
            resolve_elements_spec(
                msgs,
                terms,
                funcs,
                locale,
                true,
                args,
                elems,
                j,
                true,
                guard,
                budget,
            ).0 == pre + (seq!['\u{2068}'] + write_expr_spec(
                msgs,
                terms,
                funcs,
                locale,
                true,
                args,
                elems[i]->Placeable_0,
                guard,
                budget,
            ).0 + seq!['\u{2069}']) + post,
    decreases i - j,
{
    let wtx = write_expr_spec(
        msgs,
        terms,
        funcs,
        locale,
        true,
        args,
        elems[i]->Placeable_0,
        guard,
        budget,
    ).0;
    let wrapped = seq!['\u{2068}'] + wtx + seq!['\u{2069}'];
    let rj = resolve_elements_spec(
        msgs,
        terms,
        funcs,
        locale,
        true,
        args,
        elems,
        j,
        true,
        guard,
        budget,
    ).0;
    let rj1 = resolve_elements_spec(
        msgs,
        terms,
        funcs,
        locale,
        true,
        args,
        elems,
        j + 1,
        true,
        guard,
        budget,
    ).0;
    if j == i {
        assert(rj == Seq::<char>::empty() + wrapped + rj1) by {
            assert(rj =~= (seq!['\u{2068}'] + wtx + seq!['\u{2069}']) + rj1);
            assert((seq!['\u{2068}'] + wtx + seq!['\u{2069}']) + rj1 =~= Seq::<char>::empty()
                + wrapped + rj1);
        }
    } else {
        lemma_isolated_from(msgs, terms, funcs, locale, args, elems, j + 1, i, guard, budget);
        let (pre0, post0): (Seq<char>, Seq<char>) = choose|pre: Seq<char>, post: Seq<char>|
            rj1 == pre + wrapped + post;
        let ej = match elems[j] {
            PatternElement::Text(t) => t@,
            PatternElement::Placeable(x) => seq!['\u{2068}'] + write_expr_spec(
                msgs,
                terms,
                funcs,
                locale,
                true,
                args,
                x,
                guard,
                budget,
            ).0 + seq!['\u{2069}'],
        };
        assert(rj == ej + rj1);
        assert(rj == (ej + pre0) + wrapped + post0) by {
            assert(ej + (pre0 + wrapped + post0) =~= (ej + pre0) + wrapped + post0);
        }
    }
}

/// Resolution is a pure function of the catalog, the functions, the locale,
/// the isolation flag, the arguments, the pattern, the guard and the budget:
/// two resolutions of identical inputs produce the identical output string
/// and the identical diagnostic list. Formatter caches populated by the first
/// call cannot change the second call's result.
pub proof fn lemma_resolution_idempotent(
    msgs: Seq<FluentMessage>,
    terms: Seq<FluentTerm>,
    funcs: Seq<(String, NativeFunction)>,
    locale: Seq<char>,
    isolating: bool,
    args: Seq<(String, FluentValue)>,
    p: Pattern,
    guard: Seq<String>,
    budget: nat,
)
    ensures
        resolve_pattern_spec(msgs, terms, funcs, locale, isolating, args, p, guard, budget)
            == resolve_pattern_spec(
            msgs,
            terms,
            funcs,
            locale,
            isolating,
            args,
            p,
            guard,
            budget,
        ),
{
}

} // verus!
