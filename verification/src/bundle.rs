//! The bundle: one locale's merged catalog of messages and terms, its
//! registered-function table, a per-locale formatter memoizer, and the
//! pattern-formatting entry point.

use vstd::prelude::*;
use vstd::string::StringExecFns;

use crate::args::FluentArgs;
use crate::ast::message_wf;
use crate::ast::pattern_wf;
use crate::ast::resource_wf;
use crate::ast::term_wf;
use crate::ast::FluentMessage;
use crate::ast::FluentResource;
use crate::ast::FluentTerm;
use crate::ast::Pattern;
use crate::ast::ResourceEntry;
use crate::errors::FluentError;
use crate::intl::IntlLangMemoizer;
use crate::locale::LocaleId;
use crate::resolver::catalog_wf;
use crate::resolver::lookup_function;
use crate::resolver::lookup_message;
use crate::resolver::lookup_function_exec;
use crate::resolver::lookup_term;
use crate::resolver::resolve_pattern;
use crate::resolver::resolve_pattern_spec;
use crate::resolver::NativeFunction;
use crate::resolver::MAX_DEPTH;
use crate::strutil::str_eq;

verus! {

/// The first index holding a message with this id, from `i` on.
pub open spec fn msg_index(msgs: Seq<FluentMessage>, id: Seq<char>, i: int) -> Option<int>
    decreases msgs.len() - i,
{
    if i < 0 || i >= msgs.len() {
        None
    } else if msgs[i].id@ == id {
        Some(i)
    } else {
        msg_index(msgs, id, i + 1)
    }
}

/// The first index holding a term with this id, from `i` on.
pub open spec fn term_index(terms: Seq<FluentTerm>, id: Seq<char>, i: int) -> Option<int>
    decreases terms.len() - i,
{
    if i < 0 || i >= terms.len() {
        None
    } else if terms[i].id@ == id {
        Some(i)
    } else {
        term_index(terms, id, i + 1)
    }
}

/// Adding a message: a later entry with an existing id overrides it in place;
/// a new id is appended.
pub open spec fn spec_upsert_msg(msgs: Seq<FluentMessage>, m: FluentMessage) -> Seq<
    FluentMessage,
> {
    match msg_index(msgs, m.id@, 0) {
        Some(i) => msgs.update(i, m),
        None => msgs.push(m),
    }
}

pub open spec fn spec_upsert_term(terms: Seq<FluentTerm>, t: FluentTerm) -> Seq<FluentTerm> {
    match term_index(terms, t.id@, 0) {
        Some(i) => terms.update(i, t),
        None => terms.push(t),
    }
}

/// The catalog after merging a resource's entries from `i` on, with one
/// duplicate-id diagnostic per overridden entry.
pub open spec fn spec_apply_entries(
    msgs: Seq<FluentMessage>,
    terms: Seq<FluentTerm>,
    entries: Seq<ResourceEntry>,
    i: int,
) -> (Seq<FluentMessage>, Seq<FluentTerm>, Seq<FluentError>)
    decreases entries.len() - i,
{
    if i < 0 || i >= entries.len() {
        (msgs, terms, Seq::<FluentError>::empty())
    } else {
        match entries[i] {
            ResourceEntry::Message(m) => {
                let dup = msg_index(msgs, m.id@, 0) is Some;
                let rest = spec_apply_entries(spec_upsert_msg(msgs, m), terms, entries, i + 1);
                (
                    rest.0,
                    rest.1,
                    (if dup {
                        seq![FluentError::DuplicateEntryId]
                    } else {
                        Seq::<FluentError>::empty()
                    }) + rest.2,
                )
            },
            ResourceEntry::Term(t) => {
                let dup = term_index(terms, t.id@, 0) is Some;
                let rest = spec_apply_entries(msgs, spec_upsert_term(terms, t), entries, i + 1);
                (
                    rest.0,
                    rest.1,
                    (if dup {
                        seq![FluentError::DuplicateEntryId]
                    } else {
                        Seq::<FluentError>::empty()
                    }) + rest.2,
                )
            },
            ResourceEntry::Ignored => spec_apply_entries(msgs, terms, entries, i + 1),
        }
    }
}

fn upsert_message(msgs: &mut Vec<FluentMessage>, m: FluentMessage) -> (dup: bool)
    requires
        message_wf(m),
        forall|j: int| 0 <= j < old(msgs)@.len() ==> message_wf(#[trigger] old(msgs)@[j]),
    ensures
        final(msgs)@ == spec_upsert_msg(old(msgs)@, m),
        dup == (msg_index(old(msgs)@, m.id@, 0) is Some),
        forall|j: int| 0 <= j < final(msgs)@.len() ==> message_wf(#[trigger] final(msgs)@[j]),
{
    let n = msgs.len();
    let ghost id = m.id@;
    let mut i: usize = 0;
    while i < n
        invariant
            *msgs == *old(msgs),
            i <= n,
            n == msgs@.len(),
            message_wf(m),
            forall|j: int| 0 <= j < msgs@.len() ==> message_wf(#[trigger] msgs@[j]),
            msg_index(msgs@, m.id@, i as int) == msg_index(msgs@, m.id@, 0),
        decreases n - i,
    {
        if str_eq(msgs[i].id.as_str(), m.id.as_str()) {
            proof {
                assert(msg_index(msgs@, m.id@, i as int) == Some(i as int));
            }
            let ghost gm = m;
            msgs.set(i, m);
            proof {
                assert(msgs@ =~= old(msgs)@.update(i as int, gm));
                assert(forall|j: int|
                    0 <= j < msgs@.len() && j != i ==> #[trigger] msgs@[j] == old(msgs)@[j]);
                assert(msgs@[i as int] == gm);
            }
            return true;
        }
        i = i + 1;
    }
    proof {
        assert(msg_index(msgs@, m.id@, n as int) is None);
    }
    let ghost gm = m;
    msgs.push(m);
    proof {
        assert(forall|j: int| 0 <= j < n ==> #[trigger] msgs@[j] == old(msgs)@[j]);
        assert(msgs@[n as int] == gm);
        assert(msgs@ =~= old(msgs)@.push(gm));
    }
    false
}

fn upsert_term(terms: &mut Vec<FluentTerm>, t: FluentTerm) -> (dup: bool)
    requires
        term_wf(t),
        forall|j: int| 0 <= j < old(terms)@.len() ==> term_wf(#[trigger] old(terms)@[j]),
    ensures
        final(terms)@ == spec_upsert_term(old(terms)@, t),
        dup == (term_index(old(terms)@, t.id@, 0) is Some),
        forall|j: int| 0 <= j < final(terms)@.len() ==> term_wf(#[trigger] final(terms)@[j]),
{
    let n = terms.len();
    let mut i: usize = 0;
    while i < n
        invariant
            *terms == *old(terms),
            i <= n,
            n == terms@.len(),
            term_wf(t),
            forall|j: int| 0 <= j < terms@.len() ==> term_wf(#[trigger] terms@[j]),
            term_index(terms@, t.id@, i as int) == term_index(terms@, t.id@, 0),
        decreases n - i,
    {
        if str_eq(terms[i].id.as_str(), t.id.as_str()) {
            proof {
                assert(term_index(terms@, t.id@, i as int) == Some(i as int));
            }
            let ghost gt = t;
            terms.set(i, t);
            proof {
                assert(terms@ =~= old(terms)@.update(i as int, gt));
                assert(forall|j: int|
                    0 <= j < terms@.len() && j != i ==> #[trigger] terms@[j] == old(terms)@[j]);
                assert(terms@[i as int] == gt);
            }
            return true;
        }
        i = i + 1;
    }
    proof {
        assert(term_index(terms@, t.id@, n as int) is None);
    }
    let ghost gt = t;
    terms.push(t);
    proof {
        assert(forall|j: int| 0 <= j < n ==> #[trigger] terms@[j] == old(terms)@[j]);
        assert(terms@[n as int] == gt);
        assert(terms@ =~= old(terms)@.push(gt));
    }
    false
}

/// A collection of messages and terms for one locale list, with its function
/// table and formatter memoizer. Entries are immutable once added; function
/// registration happens before any resolution call.
///
/// Text values render as-is: the optional text-transform and
/// custom-value-formatter hooks are not modelled, since function values
/// cannot be stored in a verified field.
pub struct FluentBundle {
    locales: Vec<LocaleId>,
    messages: Vec<FluentMessage>,
    terms: Vec<FluentTerm>,
    functions: Vec<(String, NativeFunction)>,
    intls: IntlLangMemoizer,
    use_isolating: bool,
}

impl FluentBundle {
    pub closed spec fn msgs_view(&self) -> Seq<FluentMessage> {
        self.messages@
    }

    pub closed spec fn terms_view(&self) -> Seq<FluentTerm> {
        self.terms@
    }

    pub closed spec fn funcs_view(&self) -> Seq<(String, NativeFunction)> {
        self.functions@
    }

    pub closed spec fn locale_view(&self) -> Seq<char> {
        self.intls.locale_view()
    }

    /// Whether placeable output is wrapped in directional-isolation marks.
    pub closed spec fn isolating_view(&self) -> bool {
        self.use_isolating
    }

    /// The bundle's locales, the primary one first.
    pub closed spec fn locales_view(&self) -> Seq<LocaleId> {
        self.locales@
    }

    /// Turns directional-isolation marks around placeables on or off.
    pub fn set_use_isolating(&mut self, v: bool)
        requires
            old(self).wf(),
        ensures
            final(self).wf(),
            final(self).isolating_view() == v,
            final(self).msgs_view() == old(self).msgs_view(),
            final(self).terms_view() == old(self).terms_view(),
            final(self).funcs_view() == old(self).funcs_view(),
            final(self).locale_view() == old(self).locale_view(),
            final(self).locales_view() == old(self).locales_view(),
    {
        self.use_isolating = v;
    }

    /// Every stored pattern is well formed and the memoizer is usable.
    pub closed spec fn wf(&self) -> bool {
        &&& catalog_wf(self.messages@, self.terms@)
        &&& self.intls.wf()
    }

    /// A bundle for the given locales (the first is primary and drives
    /// formatting), with no entries and no functions, isolating by default.
    pub fn new(locales: Vec<LocaleId>) -> (r: Self)
        ensures
            r.wf(),
            r.msgs_view().len() == 0,
            r.terms_view().len() == 0,
            r.funcs_view().len() == 0,
            r.isolating_view() == true,
            r.locales_view() == locales@,
            locales@.len() > 0 ==> r.locale_view() == locales@[0].spec_locale_string(),
            locales@.len() == 0 ==> r.locale_view() == "und"@,
    {
        let primary: String = if locales.len() > 0 {
            locales[0].to_locale_string()
        } else {
            proof {
                reveal_strlit("und");
            }
            String::from_str("und")
        };
        FluentBundle {
            locales,
            messages: Vec::new(),
            terms: Vec::new(),
            functions: Vec::new(),
            intls: IntlLangMemoizer::new(primary),
            use_isolating: true,
        }
    }

    /// A bundle with the native `NUMBER` and `DATETIME` formatting functions
    /// pre-registered, for use where resolutions run concurrently under an
    /// outer synchronization layer.
    pub fn new_concurrent(locales: Vec<LocaleId>) -> (r: Self)
        ensures
            r.wf(),
            r.msgs_view().len() == 0,
            r.terms_view().len() == 0,
            r.isolating_view() == true,
            r.locales_view() == locales@,
            r.funcs_view().len() == 2,
            lookup_function(r.funcs_view(), "NUMBER"@) == Some(NativeFunction::Number),
            lookup_function(r.funcs_view(), "DATETIME"@) == Some(NativeFunction::Datetime),
            forall|other: Seq<char>|
                other != "NUMBER"@ && other != "DATETIME"@ ==> #[trigger] lookup_function(
                    r.funcs_view(),
                    other,
                ) is None,
            locales@.len() > 0 ==> r.locale_view() == locales@[0].spec_locale_string(),
            locales@.len() == 0 ==> r.locale_view() == "und"@,
    {
        let mut b = Self::new(locales);
        let ghost funcs0 = b.funcs_view();
        proof {
            reveal_strlit("NUMBER");
            reveal_strlit("DATETIME");
            assert("NUMBER"@ != "DATETIME"@) by {
                assert("NUMBER"@.len() != "DATETIME"@.len());
            }
            assert(forall|other: Seq<char>| #[trigger] lookup_function(funcs0, other) is None);
        }
        let r1 = b.add_function("NUMBER", NativeFunction::Number);
        let ghost funcs1 = b.funcs_view();
        proof {
            assert(r1 is Ok);
        }
        let r2 = b.add_function("DATETIME", NativeFunction::Datetime);
        proof {
            assert(r2 is Ok);
        }
        b
    }

    /// Registers a native function under a name; re-registering an existing
    /// name fails with a conflict error and does not replace the entry.
    pub fn add_function(&mut self, name: &str, f: NativeFunction) -> (r: Result<(), FluentError>)
        requires
            old(self).wf(),
        ensures
            final(self).wf(),
            final(self).msgs_view() == old(self).msgs_view(),
            final(self).terms_view() == old(self).terms_view(),
            final(self).locale_view() == old(self).locale_view(),
            final(self).locales_view() == old(self).locales_view(),
            final(self).isolating_view() == old(self).isolating_view(),
            match r {
                Ok(_) => lookup_function(old(self).funcs_view(), name@) is None && lookup_function(
                    final(self).funcs_view(),
                    name@,
                ) == Some(f) && final(self).funcs_view().len() == old(self).funcs_view().len() + 1
                    && (forall|other: Seq<char>|
                    other != name@ ==> #[trigger] lookup_function(final(self).funcs_view(), other)
                        == lookup_function(old(self).funcs_view(), other)),
                Err(e) => e == FluentError::DuplicateFunctionName && lookup_function(
                    old(self).funcs_view(),
                    name@,
                ) is Some && final(self).funcs_view() == old(self).funcs_view(),
            },
    {
        match lookup_function_exec(&self.functions, name) {
            Some(_) => Err(FluentError::DuplicateFunctionName),
            None => {
                let key = String::from_str(name);
                self.functions.push((key, f));
                proof {
                    lemma_lookup_function_push(
                        old(self).funcs_view(),
                        (final(self).funcs_view()[old(self).funcs_view().len() as int].0, f),
                    );
                    assert(final(self).funcs_view() =~= old(self).funcs_view().push(
                        (final(self).funcs_view()[old(self).funcs_view().len() as int].0, f),
                    ));
                }
                Ok(())
            },
        }
    }

    /// Merges a parsed resource's entries into the catalog. Later entries
    /// with an id already present override it, and each override is reported
    /// as a duplicate-id diagnostic; the merge itself never aborts.
    pub fn add_resource(&mut self, res: FluentResource) -> (r: Result<(), Vec<FluentError>>)
        requires
            old(self).wf(),
            resource_wf(res),
        ensures
            final(self).wf(),
            final(self).funcs_view() == old(self).funcs_view(),
            final(self).locale_view() == old(self).locale_view(),
            final(self).locales_view() == old(self).locales_view(),
            final(self).isolating_view() == old(self).isolating_view(),
            ({
                let sp = spec_apply_entries(
                    old(self).msgs_view(),
                    old(self).terms_view(),
                    res.entries@,
                    0,
                );
                final(self).msgs_view() == sp.0 && final(self).terms_view() == sp.1 && (match r {
                    Ok(_) => sp.2.len() == 0,
                    Err(es) => es@ == sp.2 && sp.2.len() > 0,
                })
            }),
    {
        let ghost sp = spec_apply_entries(
            old(self).msgs_view(),
            old(self).terms_view(),
            res.entries@,
            0,
        );
        let mut errs: Vec<FluentError> = Vec::new();
        let mut entries = res.entries;
        while entries.len() > 0
            invariant
                catalog_wf(self.messages@, self.terms@),
                self.intls == old(self).intls,
                self.functions == old(self).functions,
                self.locales == old(self).locales,
                self.use_isolating == old(self).use_isolating,
                forall|j: int|
                    0 <= j < entries@.len() ==> match #[trigger] entries@[j] {
                        ResourceEntry::Message(m) => message_wf(m),
                        ResourceEntry::Term(t) => term_wf(t),
                        ResourceEntry::Ignored => true,
                    },
                sp.0 == spec_apply_entries(self.messages@, self.terms@, entries@, 0).0,
                sp.1 == spec_apply_entries(self.messages@, self.terms@, entries@, 0).1,
                sp.2 == errs@ + spec_apply_entries(self.messages@, self.terms@, entries@, 0).2,
            decreases entries@.len(),
        {
            let ghost pre_msgs = self.messages@;
            let ghost pre_terms = self.terms@;
            let ghost pre_entries = entries@;
            let ghost pre_errs = errs@;
            let e = entries.remove(0);
            proof {
                assert(entries@ =~= pre_entries.skip(1));
                assert(forall|j: int|
                    0 <= j < entries@.len() ==> #[trigger] entries@[j] == pre_entries[j + 1]);
            }
            match e {
                ResourceEntry::Message(m) => {
                    let ghost gm = m;
                    let dup = upsert_message(&mut self.messages, m);
                    if dup {
                        errs.push(FluentError::DuplicateEntryId);
                    }
                    proof {
                        lemma_apply_entries_shift(
                            spec_upsert_msg(pre_msgs, gm),
                            pre_terms,
                            pre_entries,
                            0,
                        );
                        let rest = spec_apply_entries(self.messages@, self.terms@, entries@, 0);
                        assert(sp.2 =~= errs@ + rest.2);
                    }
                },
                ResourceEntry::Term(t) => {
                    let ghost gt = t;
                    let dup = upsert_term(&mut self.terms, t);
                    if dup {
                        errs.push(FluentError::DuplicateEntryId);
                    }
                    proof {
                        lemma_apply_entries_shift(
                            pre_msgs,
                            spec_upsert_term(pre_terms, gt),
                            pre_entries,
                            0,
                        );
                        let rest = spec_apply_entries(self.messages@, self.terms@, entries@, 0);
                        assert(sp.2 =~= errs@ + rest.2);
                    }
                },
                ResourceEntry::Ignored => {
                    proof {
                        lemma_apply_entries_shift(pre_msgs, pre_terms, pre_entries, 0);
                    }
                },
            }
        }
        proof {
            assert(sp.2 =~= errs@);
        }
        if errs.len() == 0 {
            Ok(())
        } else {
            Err(errs)
        }
    }
}

/// Stepping the merge by one consumed entry keeps its meaning: applying from
/// the next index equals applying the dropped-head sequence from the start.
proof fn lemma_apply_entries_shift(
    msgs: Seq<FluentMessage>,
    terms: Seq<FluentTerm>,
    entries: Seq<ResourceEntry>,
    i: int,
)
    requires
        0 <= i,
        entries.len() > 0,
    ensures
        spec_apply_entries(msgs, terms, entries, i + 1) == spec_apply_entries(
            msgs,
            terms,
            entries.skip(1),
            i,
        ),
    decreases entries.len() - i,
{
    if i + 1 < entries.len() {
        assert(entries.skip(1)[i] == entries[i + 1]);
        match entries[i + 1] {
            ResourceEntry::Message(m) => {
                lemma_apply_entries_shift(spec_upsert_msg(msgs, m), terms, entries, i + 1);
            },
            ResourceEntry::Term(t) => {
                lemma_apply_entries_shift(msgs, spec_upsert_term(terms, t), entries, i + 1);
            },
            ResourceEntry::Ignored => {
                lemma_apply_entries_shift(msgs, terms, entries, i + 1);
            },
        }
    }
}

proof fn lemma_lookup_function_push(
    funcs: Seq<(String, NativeFunction)>,
    p: (String, NativeFunction),
)
    requires
        lookup_function(funcs, p.0@) is None,
    ensures
        lookup_function(funcs.push(p), p.0@) == Some(p.1),
        forall|other: Seq<char>|
            other != p.0@ ==> #[trigger] lookup_function(funcs.push(p), other) == lookup_function(
                funcs,
                other,
            ),
    decreases funcs.len(),
{
    reveal_with_fuel(lookup_function, 3);
    if funcs.len() == 0 {
        assert(funcs.push(p)[0] == p);
        assert(funcs.push(p).skip(1) =~= Seq::<(String, NativeFunction)>::empty());
    } else {
        assert(funcs.push(p)[0] == funcs[0]);
        assert(funcs.push(p).skip(1) =~= funcs.skip(1).push(p));
        lemma_lookup_function_push(funcs.skip(1), p);
        assert forall|other: Seq<char>| other != p.0@ implies #[trigger] lookup_function(
            funcs.push(p),
            other,
        ) == lookup_function(funcs, other) by {
            if funcs[0].0@ != other {
                assert(lookup_function(funcs.skip(1).push(p), other) == lookup_function(
                    funcs.skip(1),
                    other,
                ));
            }
        }
    }
}

} // verus!

verus! {

impl FluentBundle {
    /// The message with this id, if the catalog holds one.
    pub fn get_message(&self, id: &str) -> (r: Option<&FluentMessage>)
        ensures
            match lookup_message(self.msgs_view(), id@) {
                Some(m) => r matches Some(rm) && *rm == m,
                None => r is None,
            },
    {
        match crate::resolver::lookup_message_ref(&self.messages, id) {
            Some(m) => Some(m),
            None => None,
        }
    }

    /// The term with this id, if the catalog holds one.
    pub fn get_term(&self, id: &str) -> (r: Option<&FluentTerm>)
        ensures
            match lookup_term(self.terms_view(), id@) {
                Some(t) => r matches Some(rt) && *rt == t,
                None => r is None,
            },
    {
        match crate::resolver::lookup_term_ref(&self.terms, id) {
            Some(t) => Some(t),
            None => None,
        }
    }

    /// The argument view a call works under: the supplied map, or no
    /// arguments.
    pub open spec fn args_view(args: Option<&FluentArgs>) -> Seq<(String, crate::value::FluentValue)> {
        match args {
            Some(a) => a@,
            None => Seq::<(String, crate::value::FluentValue)>::empty(),
        }
    }

    /// Resolves a pattern against this bundle's catalog, functions and
    /// locale, appending every diagnostic the resolution raises; the output
    /// and the diagnostics are exactly the resolution model's. Only the
    /// formatter memoizer changes, so a second identical call returns the
    /// same output and diagnostics.
    pub fn format_pattern(
        &mut self,
        pattern: &Pattern,
        args: Option<&FluentArgs>,
        errors: &mut Vec<FluentError>,
    ) -> (r: String)
        requires
            old(self).wf(),
            pattern_wf(*pattern),
            match args {
                Some(a) => a.wf(),
                None => true,
            },
        ensures
            final(self).wf(),
            final(self).msgs_view() == old(self).msgs_view(),
            final(self).terms_view() == old(self).terms_view(),
            final(self).funcs_view() == old(self).funcs_view(),
            final(self).locale_view() == old(self).locale_view(),
            final(self).locales_view() == old(self).locales_view(),
            final(self).isolating_view() == old(self).isolating_view(),
            ({
                let sp = resolve_pattern_spec(
                    old(self).msgs_view(),
                    old(self).terms_view(),
                    old(self).funcs_view(),
                    old(self).locale_view(),
                    old(self).isolating_view(),
                    Self::args_view(args),
                    *pattern,
                    Seq::<String>::empty(),
                    MAX_DEPTH as nat,
                );
                r@ == sp.0 && final(errors)@ == old(errors)@ + sp.1
            }),
    {
        let empty_args = FluentArgs::new();
        let a: &FluentArgs = match args {
            Some(a) => a,
            None => &empty_args,
        };
        let mut guard: Vec<String> = Vec::new();
        let mut out = String::new();
        resolve_pattern(
            &self.messages,
            &self.terms,
            &self.functions,
            self.use_isolating,
            &mut self.intls,
            a,
            pattern,
            &mut guard,
            MAX_DEPTH,
            errors,
            &mut out,
        );
        out
    }
}

} // verus!

verus! {

impl FluentBundle {
    /// Looks up a message and resolves its value pattern in one step; nothing
    /// is returned (and nothing changes) when the id is absent or the message
    /// has no value.
    pub fn format_message_value(
        &mut self,
        id: &str,
        args: Option<&FluentArgs>,
        errors: &mut Vec<FluentError>,
    ) -> (r: Option<String>)
        requires
            old(self).wf(),
            match args {
                Some(a) => a.wf(),
                None => true,
            },
        ensures
            final(self).wf(),
            final(self).msgs_view() == old(self).msgs_view(),
            final(self).terms_view() == old(self).terms_view(),
            final(self).funcs_view() == old(self).funcs_view(),
            final(self).locale_view() == old(self).locale_view(),
            final(self).locales_view() == old(self).locales_view(),
            final(self).isolating_view() == old(self).isolating_view(),
            match lookup_message(old(self).msgs_view(), id@) {
                Some(m) => match m.value {
                    Some(p) => ({
                        let sp = resolve_pattern_spec(
                            old(self).msgs_view(),
                            old(self).terms_view(),
                            old(self).funcs_view(),
                            old(self).locale_view(),
                            old(self).isolating_view(),
                            Self::args_view(args),
                            p,
                            Seq::<String>::empty(),
                            MAX_DEPTH as nat,
                        );
                        r matches Some(s) && s@ == sp.0 && final(errors)@ == old(errors)@ + sp.1
                    }),
                    None => r is None && final(errors)@ == old(errors)@,
                },
                None => r is None && final(errors)@ == old(errors)@,
            },
    {
        let mi = match crate::resolver::lookup_message_idx_pub(&self.messages, id) {
            Some(i) => i,
            None => {
                return None;
            },
        };
        proof {
            assert(message_wf(self.messages@[mi as int]));
        }
        let has_value = self.messages[mi].value.is_some();
        if !has_value {
            return None;
        }
        let empty_args = FluentArgs::new();
        let a: &FluentArgs = match args {
            Some(a) => a,
            None => &empty_args,
        };
        let mut guard: Vec<String> = Vec::new();
        let mut out = String::new();
        match &self.messages[mi].value {
            Some(pattern) => {
                resolve_pattern(
                    &self.messages,
                    &self.terms,
                    &self.functions,
                    self.use_isolating,
                    &mut self.intls,
                    a,
                    pattern,
                    &mut guard,
                    MAX_DEPTH,
                    errors,
                    &mut out,
                );
                Some(out)
            },
            None => None,
        }
    }
}

} // verus!
