//! Fallback localization: an ordered list of per-locale bundles, tried in
//! order on each formatting request until one's catalog holds the requested
//! message; a soft-failing value from an earlier bundle is still
//! authoritative, and only total absence yields no value.

use vstd::prelude::*;

use crate::args::FluentArgs;
use crate::bundle::FluentBundle;
use crate::errors::FluentError;
use crate::resolver::lookup_message;
use crate::resolver::resolve_pattern_spec;
use crate::resolver::MAX_DEPTH;

verus! {

/// The first bundle whose catalog holds a message with this id and a value,
/// from `i` on.
pub open spec fn first_with_value(bundles: Seq<FluentBundle>, id: Seq<char>, i: int) -> Option<int>
    decreases bundles.len() - i,
{
    if i < 0 || i >= bundles.len() {
        None
    } else {
        match lookup_message(bundles[i].msgs_view(), id) {
            Some(m) => if m.value is Some {
                Some(i)
            } else {
                first_with_value(bundles, id, i + 1)
            },
            None => first_with_value(bundles, id, i + 1),
        }
    }
}

/// An ordered bundle chain; the order is the negotiated locale fallback
/// order.
pub struct Localization {
    bundles: Vec<FluentBundle>,
}

impl Localization {
    pub closed spec fn bundles_view(&self) -> Seq<FluentBundle> {
        self.bundles@
    }

    pub closed spec fn wf(&self) -> bool {
        forall|i: int| 0 <= i < self.bundles@.len() ==> (#[trigger] self.bundles@[i]).wf()
    }

    pub fn new() -> (r: Self)
        ensures
            r.wf(),
            r.bundles_view().len() == 0,
    {
        Localization { bundles: Vec::new() }
    }

    /// Appends the next fallback bundle; callers add bundles in negotiated
    /// locale order.
    pub fn add_bundle(&mut self, b: FluentBundle)
        requires
            old(self).wf(),
            b.wf(),
        ensures
            final(self).wf(),
            final(self).bundles_view() == old(self).bundles_view().push(b),
    {
        let ghost gb = b;
        self.bundles.push(b);
        proof {
            assert(forall|i: int|
                0 <= i < old(self).bundles@.len() ==> #[trigger] self.bundles@[i] == old(
                    self,
                ).bundles@[i]);
            assert(self.bundles@[old(self).bundles@.len() as int] == gb);
        }
    }

    /// Formats the message with this id from the first bundle that holds it:
    /// that bundle's resolution is authoritative even when it raised
    /// diagnostics; only absence from every bundle yields nothing.
    pub fn format_value(
        &mut self,
        id: &str,
        args: Option<&FluentArgs>,
        errors: &mut Vec<FluentError>,
    ) -> (r: Option<String>)
        requires
            old(self).wf(),
            match args {
                Some(a) => a.wf(),
                None => true,
            },
        ensures
            final(self).wf(),
            final(self).bundles_view().len() == old(self).bundles_view().len(),
            forall|j: int|
                0 <= j < final(self).bundles_view().len() ==> {
                    &&& (#[trigger] final(self).bundles_view()[j]).msgs_view() == old(
                        self,
                    ).bundles_view()[j].msgs_view()
                    &&& final(self).bundles_view()[j].terms_view() == old(
                        self,
                    ).bundles_view()[j].terms_view()
                    &&& final(self).bundles_view()[j].funcs_view() == old(
                        self,
                    ).bundles_view()[j].funcs_view()
                    &&& final(self).bundles_view()[j].locale_view() == old(
                        self,
                    ).bundles_view()[j].locale_view()
                    &&& final(self).bundles_view()[j].isolating_view() == old(
                        self,
                    ).bundles_view()[j].isolating_view()
                },
            match first_with_value(old(self).bundles_view(), id@, 0) {
                Some(i) => ({
                    let b = old(self).bundles_view()[i];
                    let m = lookup_message(b.msgs_view(), id@).unwrap();
                    let sp = resolve_pattern_spec(
                        b.msgs_view(),
                        b.terms_view(),
                        b.funcs_view(),
                        b.locale_view(),
                        b.isolating_view(),
                        FluentBundle::args_view(args),
                        m.value.unwrap(),
                        Seq::<String>::empty(),
                        MAX_DEPTH as nat,
                    );
                    r matches Some(s) && s@ == sp.0 && final(errors)@ == old(errors)@ + sp.1
                }),
                None => r is None && final(errors)@ == old(errors)@,
            },
    {
        let n = self.bundles.len();
        let mut i: usize = 0;
        while i < n
            invariant
                old(self).wf(),
                match args {
                    Some(a) => a.wf(),
                    None => true,
                },
                i <= n,
                n == self.bundles@.len(),
                self.bundles@.len() == old(self).bundles@.len(),
                self.wf(),
                errors@ == old(errors)@,
                forall|j: int|
                    0 <= j < self.bundles@.len() ==> {
                        &&& (#[trigger] self.bundles@[j]).msgs_view() == old(
                            self,
                        ).bundles@[j].msgs_view()
                        &&& self.bundles@[j].terms_view() == old(self).bundles@[j].terms_view()
                        &&& self.bundles@[j].funcs_view() == old(self).bundles@[j].funcs_view()
                        &&& self.bundles@[j].locale_view() == old(self).bundles@[j].locale_view()
                        &&& self.bundles@[j].isolating_view() == old(
                            self,
                        ).bundles@[j].isolating_view()
                    },
                first_with_value(old(self).bundles@, id@, i as int) == first_with_value(
                    old(self).bundles@,
                    id@,
                    0,
                ),
            decreases n - i,
        {
            let b = &mut self.bundles[i];
            let got = b.format_message_value(id, args, errors);
            match got {
                Some(s) => {
                    proof {
                        assert(first_with_value(old(self).bundles@, id@, i as int) == Some(
                            i as int,
                        ));
                    }
                    return Some(s);
                },
                None => {},
            }
            i = i + 1;
        }
        None
    }
}

} // verus!
