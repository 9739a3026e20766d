//! Locale negotiation: matches a requested locale preference list against the
//! available locales using exact, maximized and language-only matching, and
//! produces a deterministic, deduplicated fallback order under one of three
//! strategies.

use vstd::prelude::*;

use crate::locale::loc_eq;
use crate::locale::loc_views;
use crate::locale::spec_maximize;
use crate::locale::LocaleId;
use crate::locale::MockLikelySubtags;
use crate::strutil::str_eq;

verus! {

#[derive(Debug, Copy, Clone, PartialEq, Eq, Structural)]
pub enum NegotiationStrategy {
    /// Keep every available locale that matches any requested one, in
    /// requested-priority order, then the default if absent.
    Filtering,
    /// For each requested locale, its single best available match, then the
    /// default if absent.
    Matching,
    /// The single best match for the whole list, or exactly the default.
    Lookup,
}

/// One requested-against-available match test: exact identifier match, match
/// after maximizing the requested locale, or language-subtag match.
pub open spec fn pair_matches(req: LocaleId, av: LocaleId) -> bool {
    ||| loc_eq(req, av)
    ||| (match spec_maximize(loc_views(req)) {
        Some(m) => loc_views(av) == m,
        None => false,
    })
    ||| av.language@ == req.language@
}

/// The first available locale equal to the requested one, from `i` on.
pub open spec fn find_exact(avail: Seq<LocaleId>, req: LocaleId, i: int) -> Option<int>
    decreases avail.len() - i,
{
    if i < 0 || i >= avail.len() {
        None
    } else if loc_eq(avail[i], req) {
        Some(i)
    } else {
        find_exact(avail, req, i + 1)
    }
}

/// The first available locale with exactly these subtag views, from `i` on.
pub open spec fn find_views(
    avail: Seq<LocaleId>,
    v: (Seq<char>, Option<Seq<char>>, Option<Seq<char>>),
    i: int,
) -> Option<int>
    decreases avail.len() - i,
{
    if i < 0 || i >= avail.len() {
        None
    } else if loc_views(avail[i]) == v {
        Some(i)
    } else {
        find_views(avail, v, i + 1)
    }
}

/// The first available locale with this language subtag, from `i` on.
pub open spec fn find_lang(avail: Seq<LocaleId>, lang: Seq<char>, i: int) -> Option<int>
    decreases avail.len() - i,
{
    if i < 0 || i >= avail.len() {
        None
    } else if avail[i].language@ == lang {
        Some(i)
    } else {
        find_lang(avail, lang, i + 1)
    }
}

/// The single best available match for one requested locale, in the fixed
/// priority order: exact, then maximized, then language-only.
pub open spec fn best_match(avail: Seq<LocaleId>, req: LocaleId) -> Option<int> {
    match find_exact(avail, req, 0) {
        Some(i) => Some(i),
        None => match spec_maximize(loc_views(req)) {
            Some(m) => match find_views(avail, m, 0) {
                Some(i) => Some(i),
                None => find_lang(avail, req.language@, 0),
            },
            None => find_lang(avail, req.language@, 0),
        },
    }
}

/// Whether a list already carries this locale.
pub open spec fn contains_loc(s: Seq<LocaleId>, l: LocaleId) -> bool {
    exists|i: int| 0 <= i < s.len() && loc_eq(#[trigger] s[i], l)
}

/// The list with later duplicates dropped, keeping first-seen order.
pub open spec fn spec_dedup(s: Seq<LocaleId>) -> Seq<LocaleId>
    decreases s.len(),
{
    if s.len() == 0 {
        Seq::<LocaleId>::empty()
    } else {
        spec_dedup(s.drop_last()) + (if contains_loc(s.drop_last(), s.last()) {
            Seq::<LocaleId>::empty()
        } else {
            seq![s.last()]
        })
    }
}

/// For each requested locale in order, every available locale that matches
/// it, in available order.
pub open spec fn collect_filtering(requested: Seq<LocaleId>, avail: Seq<LocaleId>, i: int) -> Seq<
    LocaleId,
>
    decreases requested.len() - i,
{
    if i < 0 || i >= requested.len() {
        Seq::<LocaleId>::empty()
    } else {
        matches_of(avail, requested[i], 0) + collect_filtering(requested, avail, i + 1)
    }
}

pub open spec fn matches_of(avail: Seq<LocaleId>, req: LocaleId, j: int) -> Seq<LocaleId>
    decreases avail.len() - j,
{
    if j < 0 || j >= avail.len() {
        Seq::<LocaleId>::empty()
    } else {
        (if pair_matches(req, avail[j]) {
            seq![avail[j]]
        } else {
            Seq::<LocaleId>::empty()
        }) + matches_of(avail, req, j + 1)
    }
}

/// For each requested locale in order, its single best match if any.
pub open spec fn collect_matching(requested: Seq<LocaleId>, avail: Seq<LocaleId>, i: int) -> Seq<
    LocaleId,
>
    decreases requested.len() - i,
{
    if i < 0 || i >= requested.len() {
        Seq::<LocaleId>::empty()
    } else {
        (match best_match(avail, requested[i]) {
            Some(j) => if 0 <= j < avail.len() {
                seq![avail[j]]
            } else {
                Seq::<LocaleId>::empty()
            },
            None => Seq::<LocaleId>::empty(),
        }) + collect_matching(requested, avail, i + 1)
    }
}

/// The lookup strategy's result: the first requested locale's best match, or
/// exactly the default.
pub open spec fn lookup_result(
    requested: Seq<LocaleId>,
    avail: Seq<LocaleId>,
    default: LocaleId,
    i: int,
) -> Seq<LocaleId>
    decreases requested.len() - i,
{
    if i < 0 || i >= requested.len() {
        seq![default]
    } else {
        match best_match(avail, requested[i]) {
            Some(j) => if 0 <= j < avail.len() {
                seq![avail[j]]
            } else {
                lookup_result(requested, avail, default, i + 1)
            },
            None => lookup_result(requested, avail, default, i + 1),
        }
    }
}

/// The negotiated fallback order: matches deduplicated in first-seen order,
/// ending with the default for the filtering and matching strategies.
pub open spec fn spec_negotiate(
    requested: Seq<LocaleId>,
    avail: Seq<LocaleId>,
    default: LocaleId,
    strategy: NegotiationStrategy,
) -> Seq<LocaleId> {
    match strategy {
        NegotiationStrategy::Filtering => with_default(
            spec_dedup(collect_filtering(requested, avail, 0)),
            default,
        ),
        NegotiationStrategy::Matching => with_default(
            spec_dedup(collect_matching(requested, avail, 0)),
            default,
        ),
        NegotiationStrategy::Lookup => lookup_result(requested, avail, default, 0),
    }
}

pub open spec fn with_default(s: Seq<LocaleId>, default: LocaleId) -> Seq<LocaleId> {
    if contains_loc(s, default) {
        s
    } else {
        s.push(default)
    }
}

proof fn lemma_dedup_contains(s: Seq<LocaleId>, l: LocaleId)
    ensures
        contains_loc(spec_dedup(s), l) == contains_loc(s, l),
    decreases s.len(),
{
    if s.len() > 0 {
        let dl = s.drop_last();
        lemma_dedup_contains(dl, l);
        assert(forall|i: int| 0 <= i < dl.len() ==> #[trigger] dl[i] == s[i]);
        if contains_loc(dl, s.last()) {
            assert(spec_dedup(s) =~= spec_dedup(dl));
            assert(contains_loc(s, l) == contains_loc(dl, l)) by {
                if contains_loc(s, l) {
                    let i = choose|i: int| 0 <= i < s.len() && loc_eq(s[i], l);
                    if i == s.len() - 1 {
                        let k = choose|k: int| 0 <= k < dl.len() && loc_eq(dl[k], s.last());
                        assert(loc_eq(dl[k], l));
                    } else {
                        assert(loc_eq(dl[i], l));
                    }
                }
                if contains_loc(dl, l) {
                    let k = choose|k: int| 0 <= k < dl.len() && loc_eq(dl[k], l);
                    assert(loc_eq(s[k], l));
                }
            }
        } else {
            let d = spec_dedup(dl);
            assert(spec_dedup(s) =~= d.push(s.last()));
            assert(contains_loc(s, l) == (contains_loc(dl, l) || loc_eq(s.last(), l))) by {
                if contains_loc(s, l) {
                    let i = choose|i: int| 0 <= i < s.len() && loc_eq(s[i], l);
                    if i < s.len() - 1 {
                        assert(loc_eq(dl[i], l));
                    }
                }
                if loc_eq(s.last(), l) {
                    assert(loc_eq(s[s.len() - 1], l));
                }
            }
            assert(contains_loc(spec_dedup(s), l) == (contains_loc(d, l) || loc_eq(
                s.last(),
                l,
            ))) by {
                assert(forall|i: int| 0 <= i < d.len() ==> #[trigger] spec_dedup(s)[i] == d[i]);
                assert(spec_dedup(s)[d.len() as int] == s.last());
                if contains_loc(spec_dedup(s), l) {
                    let i = choose|i: int|
                        0 <= i < spec_dedup(s).len() && loc_eq(spec_dedup(s)[i], l);
                    if i < d.len() {
                        assert(loc_eq(d[i], l));
                    } else {
                        assert(loc_eq(s.last(), l));
                    }
                }
                if contains_loc(d, l) {
                    let k = choose|k: int| 0 <= k < d.len() && loc_eq(d[k], l);
                    assert(loc_eq(spec_dedup(s)[k], l));
                }
                if loc_eq(s.last(), l) {
                    assert(loc_eq(spec_dedup(s)[d.len() as int], l));
                }
            }
        }
    }
}

fn contains_loc_exec(s: &Vec<LocaleId>, l: &LocaleId) -> (r: bool)
    ensures
        r == contains_loc(s@, *l),
{
    let n = s.len();
    let mut i: usize = 0;
    while i < n
        invariant
            i <= n,
            n == s@.len(),
            forall|j: int| 0 <= j < i ==> !loc_eq(#[trigger] s@[j], *l),
        decreases n - i,
    {
        if s[i].same_as(l) {
            return true;
        }
        i = i + 1;
    }
    false
}

/// Appends the candidates, dropping any locale already present.
fn dedup_append(out: &mut Vec<LocaleId>, candidates: Vec<LocaleId>)
    requires
        old(out)@ == spec_dedup(Seq::<LocaleId>::empty()),
    ensures
        final(out)@ == spec_dedup(candidates@),
{
    let n = candidates.len();
    let mut i: usize = 0;
    while i < n
        invariant
            i <= n,
            n == candidates@.len(),
            out@ == spec_dedup(candidates@.take(i as int)),
        decreases n - i,
    {
        let ghost pre = candidates@.take(i as int);
        proof {
            assert(candidates@.take(i as int + 1).drop_last() =~= pre);
            assert(candidates@.take(i as int + 1).last() == candidates@[i as int]);
            lemma_dedup_contains(pre, candidates@[i as int]);
        }
        if !contains_loc_exec(out, &candidates[i]) {
            out.push(candidates[i].duplicate());
            proof {
                assert(out@ =~= spec_dedup(candidates@.take(i as int + 1)));
            }
        } else {
            proof {
                assert(out@ =~= spec_dedup(candidates@.take(i as int + 1)));
            }
        }
        i = i + 1;
    }
    proof {
        assert(candidates@.take(n as int) =~= candidates@);
    }
}

/// The single best available match for one requested locale.
fn best_match_exec(avail: &Vec<LocaleId>, req: &LocaleId) -> (r: Option<usize>)
    ensures
        match best_match(avail@, *req) {
            Some(j) => r matches Some(i) && i as int == j && i < avail@.len(),
            None => r is None,
        },
{
    proof {
        lemma_find_range(avail@, *req);
    }
    let n = avail.len();
    let mut i: usize = 0;
    while i < n
        invariant
            i <= n,
            n == avail@.len(),
            find_exact(avail@, *req, i as int) == find_exact(avail@, *req, 0),
        decreases n - i,
    {
        if avail[i].same_as(req) {
            proof {
                assert(find_exact(avail@, *req, i as int) == Some(i as int));
            }
            return Some(i);
        }
        i = i + 1;
    }
    let mut maxed = req.duplicate();
    let changed = maxed.maximize();
    if changed {
        let mut i: usize = 0;
        while i < n
            invariant
                i <= n,
                n == avail@.len(),
                find_exact(avail@, *req, 0) is None,
                spec_maximize(loc_views(*req)) == Some(loc_views(maxed)),
                find_views(avail@, loc_views(maxed), i as int) == find_views(
                    avail@,
                    loc_views(maxed),
                    0,
                ),
            decreases n - i,
        {
            if avail[i].same_as(&maxed) {
                proof {
                    assert(find_views(avail@, loc_views(maxed), i as int) == Some(i as int));
                }
                return Some(i);
            }
            i = i + 1;
        }
    }
    let mut i: usize = 0;
    while i < n
        invariant
            i <= n,
            n == avail@.len(),
            find_exact(avail@, *req, 0) is None,
            match spec_maximize(loc_views(*req)) {
                Some(m) => find_views(avail@, m, 0) is None,
                None => true,
            },
            find_lang(avail@, req.language@, i as int) == find_lang(avail@, req.language@, 0),
        decreases n - i,
    {
        if str_eq(avail[i].language.as_str(), req.language.as_str()) {
            proof {
                assert(find_lang(avail@, req.language@, i as int) == Some(i as int));
            }
            return Some(i);
        }
        i = i + 1;
    }
    None
}

proof fn lemma_find_range(avail: Seq<LocaleId>, req: LocaleId)
    ensures
        best_match(avail, req) matches Some(j) ==> 0 <= j < avail.len(),
{
    lemma_find_exact_range(avail, req, 0);
    lemma_find_views_range(avail, req, 0);
    lemma_find_lang_range(avail, req.language@, 0);
}

proof fn lemma_find_exact_range(avail: Seq<LocaleId>, req: LocaleId, i: int)
    ensures
        find_exact(avail, req, i) matches Some(j) ==> 0 <= i <= j < avail.len(),
    decreases avail.len() - i,
{
    if 0 <= i < avail.len() && !loc_eq(avail[i], req) {
        lemma_find_exact_range(avail, req, i + 1);
    }
}

proof fn lemma_find_views_range(avail: Seq<LocaleId>, req: LocaleId, i: int)
    ensures
        match spec_maximize(loc_views(req)) {
            Some(m) => find_views(avail, m, i) matches Some(j) ==> 0 <= i <= j < avail.len(),
            None => true,
        },
    decreases avail.len() - i,
{
    match spec_maximize(loc_views(req)) {
        Some(m) => {
            if 0 <= i < avail.len() && loc_views(avail[i]) != m {
                lemma_find_views_range(avail, req, i + 1);
            }
        },
        None => {},
    }
}

proof fn lemma_find_lang_range(avail: Seq<LocaleId>, lang: Seq<char>, i: int)
    ensures
        find_lang(avail, lang, i) matches Some(j) ==> 0 <= i <= j < avail.len(),
    decreases avail.len() - i,
{
    if 0 <= i < avail.len() && avail[i].language@ != lang {
        lemma_find_lang_range(avail, lang, i + 1);
    }
}

/// One requested-against-available match test.
fn pair_matches_exec(req: &LocaleId, av: &LocaleId) -> (r: bool)
    ensures
        r == pair_matches(*req, *av),
{
    if av.same_as(req) {
        return true;
    }
    let mut maxed = req.duplicate();
    let changed = maxed.maximize();
    if changed && av.same_as(&maxed) {
        return true;
    }
    str_eq(av.language.as_str(), req.language.as_str())
}

/// Matches a requested locale preference list against the available locales
/// and returns the negotiated, deduplicated fallback order for the strategy.
pub fn negotiate_languages(
    requested: &Vec<LocaleId>,
    available: &Vec<LocaleId>,
    default: &LocaleId,
    strategy: NegotiationStrategy,
) -> (r: Vec<LocaleId>)
    ensures
        r@ == spec_negotiate(requested@, available@, *default, strategy),
{
    match strategy {
        NegotiationStrategy::Lookup => {
            let n = requested.len();
            let mut i: usize = 0;
            while i < n
                invariant
                    strategy == NegotiationStrategy::Lookup,
                    i <= n,
                    n == requested@.len(),
                    lookup_result(requested@, available@, *default, i as int) == lookup_result(
                        requested@,
                        available@,
                        *default,
                        0,
                    ),
                decreases n - i,
            {
                match best_match_exec(available, &requested[i]) {
                    Some(j) => {
                        let mut out: Vec<LocaleId> = Vec::new();
                        out.push(available[j].duplicate());
                        proof {
                            assert(lookup_result(requested@, available@, *default, i as int)
                                =~= seq![available@[j as int]]);
                            assert(out@ =~= lookup_result(requested@, available@, *default, 0));
                        }
                        return out;
                    },
                    None => {},
                }
                i = i + 1;
            }
            let mut out: Vec<LocaleId> = Vec::new();
            out.push(default.duplicate());
            proof {
                assert(out@ =~= lookup_result(requested@, available@, *default, 0));
            }
            out
        },
        NegotiationStrategy::Filtering => {
            let mut collected: Vec<LocaleId> = Vec::new();
            let n = requested.len();
            let mut i: usize = 0;
            while i < n
                invariant
                    strategy == NegotiationStrategy::Filtering,
                    i <= n,
                    n == requested@.len(),
                    collected@ == collect_filtering_prefix(requested@, available@, i as int),
                decreases n - i,
            {
                let m = available.len();
                let mut j: usize = 0;
                while j < m
                    invariant
                        i < n,
                        n == requested@.len(),
                        j <= m,
                        m == available@.len(),
                        collected@ == collect_filtering_prefix(requested@, available@, i as int)
                            + matches_of_prefix(available@, requested@[i as int], j as int),
                    decreases m - j,
                {
                    if pair_matches_exec(&requested[i], &available[j]) {
                        collected.push(available[j].duplicate());
                    }
                    proof {
                        assert(matches_of_prefix(available@, requested@[i as int], j as int + 1)
                            =~= matches_of_prefix(available@, requested@[i as int], j as int) + (
                        if pair_matches(requested@[i as int], available@[j as int]) {
                            seq![available@[j as int]]
                        } else {
                            Seq::<LocaleId>::empty()
                        }));
                        assert(collected@ =~= collect_filtering_prefix(
                            requested@,
                            available@,
                            i as int,
                        ) + matches_of_prefix(available@, requested@[i as int], j as int + 1));
                    }
                    j = j + 1;
                }
                proof {
                    lemma_matches_prefix_full(available@, requested@[i as int]);
                    assert(collect_filtering_prefix(requested@, available@, i as int + 1)
                        =~= collect_filtering_prefix(requested@, available@, i as int)
                        + matches_of(available@, requested@[i as int], 0));
                    assert(collected@ =~= collect_filtering_prefix(
                        requested@,
                        available@,
                        i as int + 1,
                    ));
                }
                i = i + 1;
            }
            proof {
                lemma_collect_filtering_prefix_full(requested@, available@);
            }
            let mut out: Vec<LocaleId> = Vec::new();
            dedup_append(&mut out, collected);
            if !contains_loc_exec(&out, default) {
                out.push(default.duplicate());
            }
            out
        },
        NegotiationStrategy::Matching => {
            let mut collected: Vec<LocaleId> = Vec::new();
            let n = requested.len();
            let mut i: usize = 0;
            while i < n
                invariant
                    strategy == NegotiationStrategy::Matching,
                    i <= n,
                    n == requested@.len(),
                    collected@ == collect_matching_prefix(requested@, available@, i as int),
                decreases n - i,
            {
                match best_match_exec(available, &requested[i]) {
                    Some(j) => {
                        collected.push(available[j].duplicate());
                    },
                    None => {},
                }
                proof {
                    assert(collect_matching_prefix(requested@, available@, i as int + 1)
                        =~= collect_matching_prefix(requested@, available@, i as int) + (
                    match best_match(available@, requested@[i as int]) {
                        Some(j) => if 0 <= j < available@.len() {
                            seq![available@[j]]
                        } else {
                            Seq::<LocaleId>::empty()
                        },
                        None => Seq::<LocaleId>::empty(),
                    }));
                    assert(collected@ =~= collect_matching_prefix(
                        requested@,
                        available@,
                        i as int + 1,
                    ));
                }
                i = i + 1;
            }
            proof {
                lemma_collect_matching_prefix_full(requested@, available@);
            }
            let mut out: Vec<LocaleId> = Vec::new();
            dedup_append(&mut out, collected);
            if !contains_loc_exec(&out, default) {
                out.push(default.duplicate());
            }
            out
        },
    }
}

/// The filtering matches of the requested prefix before `i`.
pub open spec fn collect_filtering_prefix(
    requested: Seq<LocaleId>,
    avail: Seq<LocaleId>,
    i: int,
) -> Seq<LocaleId>
    decreases i,
{
    if i <= 0 {
        Seq::<LocaleId>::empty()
    } else {
        collect_filtering_prefix(requested, avail, i - 1) + matches_of(
            avail,
            requested[i - 1],
            0,
        )
    }
}

pub open spec fn matches_of_prefix(avail: Seq<LocaleId>, req: LocaleId, j: int) -> Seq<LocaleId>
    decreases j,
{
    if j <= 0 {
        Seq::<LocaleId>::empty()
    } else {
        matches_of_prefix(avail, req, j - 1) + (if pair_matches(req, avail[j - 1]) {
            seq![avail[j - 1]]
        } else {
            Seq::<LocaleId>::empty()
        })
    }
}

pub open spec fn collect_matching_prefix(
    requested: Seq<LocaleId>,
    avail: Seq<LocaleId>,
    i: int,
) -> Seq<LocaleId>
    decreases i,
{
    if i <= 0 {
        Seq::<LocaleId>::empty()
    } else {
        collect_matching_prefix(requested, avail, i - 1) + (match best_match(
            avail,
            requested[i - 1],
        ) {
            Some(j) => if 0 <= j < avail.len() {
                seq![avail[j]]
            } else {
                Seq::<LocaleId>::empty()
            },
            None => Seq::<LocaleId>::empty(),
        })
    }
}

proof fn lemma_matches_prefix_full(avail: Seq<LocaleId>, req: LocaleId)
    ensures
        matches_of_prefix(avail, req, avail.len() as int) == matches_of(avail, req, 0),
{
    lemma_matches_split(avail, req, avail.len() as int);
    assert(matches_of_prefix(avail, req, avail.len() as int) + Seq::<LocaleId>::empty()
        =~= matches_of_prefix(avail, req, avail.len() as int));
}

/// The whole match list splits at any point into prefix and suffix.
proof fn lemma_matches_split(avail: Seq<LocaleId>, req: LocaleId, j: int)
    requires
        0 <= j <= avail.len(),
    ensures
        matches_of(avail, req, 0) == matches_of_prefix(avail, req, j) + matches_of(avail, req, j),
    decreases j,
{
    if j == 0 {
        assert(Seq::<LocaleId>::empty() + matches_of(avail, req, 0) =~= matches_of(avail, req, 0));
    } else {
        lemma_matches_split(avail, req, j - 1);
        assert(matches_of(avail, req, j - 1) == (if pair_matches(req, avail[j - 1]) {
            seq![avail[j - 1]]
        } else {
            Seq::<LocaleId>::empty()
        }) + matches_of(avail, req, j));
        assert(matches_of_prefix(avail, req, j) + matches_of(avail, req, j)
            =~= matches_of_prefix(avail, req, j - 1) + matches_of(avail, req, j - 1));
    }
}

proof fn lemma_collect_filtering_prefix_full(requested: Seq<LocaleId>, avail: Seq<LocaleId>)
    ensures
        collect_filtering_prefix(requested, avail, requested.len() as int) == collect_filtering(
            requested,
            avail,
            0,
        ),
{
    lemma_collect_filtering_split(requested, avail, requested.len() as int);
    assert(collect_filtering_prefix(requested, avail, requested.len() as int) + Seq::<
        LocaleId,
    >::empty() =~= collect_filtering_prefix(requested, avail, requested.len() as int));
}

proof fn lemma_collect_filtering_split(requested: Seq<LocaleId>, avail: Seq<LocaleId>, i: int)
    requires
        0 <= i <= requested.len(),
    ensures
        collect_filtering(requested, avail, 0) == collect_filtering_prefix(requested, avail, i)
            + collect_filtering(requested, avail, i),
    decreases i,
{
    if i == 0 {
        assert(Seq::<LocaleId>::empty() + collect_filtering(requested, avail, 0)
            =~= collect_filtering(requested, avail, 0));
    } else {
        lemma_collect_filtering_split(requested, avail, i - 1);
        assert(collect_filtering_prefix(requested, avail, i) + collect_filtering(
            requested,
            avail,
            i,
        ) =~= collect_filtering_prefix(requested, avail, i - 1) + collect_filtering(
            requested,
            avail,
            i - 1,
        ));
    }
}

proof fn lemma_collect_matching_prefix_full(requested: Seq<LocaleId>, avail: Seq<LocaleId>)
    ensures
        collect_matching_prefix(requested, avail, requested.len() as int) == collect_matching(
            requested,
            avail,
            0,
        ),
{
    lemma_collect_matching_split(requested, avail, requested.len() as int);
    assert(collect_matching_prefix(requested, avail, requested.len() as int) + Seq::<
        LocaleId,
    >::empty() =~= collect_matching_prefix(requested, avail, requested.len() as int));
}

proof fn lemma_collect_matching_split(requested: Seq<LocaleId>, avail: Seq<LocaleId>, i: int)
    requires
        0 <= i <= requested.len(),
    ensures
        collect_matching(requested, avail, 0) == collect_matching_prefix(requested, avail, i)
            + collect_matching(requested, avail, i),
    decreases i,
{
    if i == 0 {
        assert(Seq::<LocaleId>::empty() + collect_matching(requested, avail, 0)
            =~= collect_matching(requested, avail, 0));
    } else {
        lemma_collect_matching_split(requested, avail, i - 1);
        assert(collect_matching_prefix(requested, avail, i) + collect_matching(
            requested,
            avail,
            i,
        ) =~= collect_matching_prefix(requested, avail, i - 1) + collect_matching(
            requested,
            avail,
            i - 1,
        ));
    }
}

} // verus!
