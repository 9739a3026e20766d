//! The runtime arguments: a mapping from argument name to value, supplied per
//! formatting call. Keys are unique; setting an existing key overwrites its
//! value (last write wins).

use vstd::prelude::*;
use vstd::string::StringExecFns;

use crate::strutil::str_eq;
use crate::value::FluentValue;

verus! {

/// The value filed under `name`, front to back.
pub open spec fn spec_get(pairs: Seq<(String, FluentValue)>, name: Seq<char>) -> Option<
    FluentValue,
>
    decreases pairs.len(),
{
    if pairs.len() == 0 {
        None
    } else if pairs[0].0@ == name {
        Some(pairs[0].1)
    } else {
        spec_get(pairs.skip(1), name)
    }
}

proof fn lemma_spec_get_update(
    pairs: Seq<(String, FluentValue)>,
    i: int,
    v: FluentValue,
    name: Seq<char>,
)
    requires
        0 <= i < pairs.len(),
        forall|j: int| 0 <= j < i ==> (#[trigger] pairs[j]).0@ != pairs[i].0@,
    ensures
        spec_get(pairs.update(i, (pairs[i].0, v)), name) == if name == pairs[i].0@ {
            Some(v)
        } else {
            spec_get(pairs, name)
        },
    decreases i,
{
    let up = pairs.update(i, (pairs[i].0, v));
    if i == 0 {
        assert(up[0] == (pairs[0].0, v));
        assert(up.skip(1) =~= pairs.skip(1));
    } else {
        assert(up[0] == pairs[0]);
        assert(up.skip(1) =~= pairs.skip(1).update(i - 1, (pairs.skip(1)[i - 1].0, v)));
        assert forall|j: int| 0 <= j < i - 1 implies (#[trigger] pairs.skip(1)[j]).0@ != pairs.skip(
            1,
        )[i - 1].0@ by {
            assert(pairs.skip(1)[j] == pairs[j + 1]);
            assert(pairs.skip(1)[i - 1] == pairs[i]);
        }
        lemma_spec_get_update(pairs.skip(1), i - 1, v, name);
    }
}

proof fn lemma_spec_get_push(pairs: Seq<(String, FluentValue)>, p: (String, FluentValue), name: Seq<
    char,
>)
    requires
        forall|j: int| 0 <= j < pairs.len() ==> (#[trigger] pairs[j]).0@ != p.0@,
    ensures
        spec_get(pairs.push(p), name) == if name == p.0@ {
            Some(p.1)
        } else {
            spec_get(pairs, name)
        },
    decreases pairs.len(),
{
    reveal_with_fuel(spec_get, 3);
    if pairs.len() == 0 {
        assert(pairs.push(p)[0] == p);
        assert(pairs.push(p).skip(1) =~= Seq::<(String, FluentValue)>::empty());
    } else {
        assert(pairs.push(p)[0] == pairs[0]);
        assert(pairs.push(p).skip(1) =~= pairs.skip(1).push(p));
        assert forall|j: int| 0 <= j < pairs.skip(1).len() implies (#[trigger] pairs.skip(
            1,
        )[j]).0@ != p.0@ by {
            assert(pairs.skip(1)[j] == pairs[j + 1]);
        }
        lemma_spec_get_push(pairs.skip(1), p, name);
    }
}

/// An immutable mapping from argument name to runtime value, with unique
/// keys.
#[derive(Debug, Clone, PartialEq)]
pub struct FluentArgs {
    pairs: Vec<(String, FluentValue)>,
}

impl View for FluentArgs {
    type V = Seq<(String, FluentValue)>;

    closed spec fn view(&self) -> Seq<(String, FluentValue)> {
        self.pairs@
    }
}

impl FluentArgs {
    /// Keys are unique and every held value is well formed.
    pub open spec fn wf(&self) -> bool {
        &&& (forall|i: int, j: int|
            0 <= i < j < self@.len() ==> (#[trigger] self@[i]).0@ != (#[trigger] self@[j]).0@)
        &&& (forall|i: int| 0 <= i < self@.len() ==> (#[trigger] self@[i]).1.wf())
    }

    pub fn new() -> (r: Self)
        ensures
            r@ == Seq::<(String, FluentValue)>::empty(),
            r.wf(),
    {
        FluentArgs { pairs: Vec::new() }
    }

    /// An argument map over the given pairs, in their order; duplicate keys
    /// are kept, the first occurrence winning on lookup.
    pub fn from_vec(pairs: Vec<(String, FluentValue)>) -> (r: Self)
        ensures
            r@ == pairs@,
    {
        FluentArgs { pairs }
    }

    pub fn len(&self) -> (r: usize)
        ensures
            r == self@.len(),
    {
        self.pairs.len()
    }

    pub fn key_at(&self, i: usize) -> (r: &str)
        requires
            i < self@.len(),
        ensures
            r@ == self@[i as int].0@,
    {
        self.pairs[i].0.as_str()
    }

    pub fn value_at(&self, i: usize) -> (r: &FluentValue)
        requires
            i < self@.len(),
        ensures
            *r == self@[i as int].1,
    {
        &self.pairs[i].1
    }

    /// The value supplied under `name`, if any.
    pub fn get(&self, name: &str) -> (r: Option<&FluentValue>)
        ensures
            match spec_get(self@, name@) {
                Some(v) => r matches Some(rv) && *rv == v,
                None => r is None,
            },
    {
        let n = self.pairs.len();
        let mut i: usize = 0;
        proof {
            assert(self@.skip(0) =~= self@);
        }
        while i < n
            invariant
                i <= n,
                n == self@.len(),
                spec_get(self@.skip(i as int), name@) == spec_get(self@, name@),
            decreases n - i,
        {
            proof {
                assert(self@.skip(i as int)[0] == self@[i as int]);
                assert(self@.skip(i as int).skip(1) =~= self@.skip(i as int + 1));
            }
            if str_eq(self.pairs[i].0.as_str(), name) {
                proof {
                    assert(spec_get(self@.skip(i as int), name@) == Some(self@[i as int].1));
                }
                return Some(&self.pairs[i].1);
            }
            i = i + 1;
        }
        proof {
            assert(self@.skip(n as int) =~= Seq::<(String, FluentValue)>::empty());
        }
        None
    }

    /// Sets `name` to `value`, overwriting any earlier value under the same
    /// name; every other name keeps its value.
    pub fn set(&mut self, name: &str, value: FluentValue)
        requires
            old(self).wf(),
            value.wf(),
        ensures
            final(self).wf(),
            spec_get(final(self)@, name@) == Some(value),
            forall|other: Seq<char>|
                other != name@ ==> #[trigger] spec_get(final(self)@, other) == spec_get(
                    old(self)@,
                    other,
                ),
    {
        let n = self.pairs.len();
        let mut i: usize = 0;
        while i < n
            invariant
                *self == *old(self),
                self.wf(),
                value.wf(),
                i <= n,
                n == self@.len(),
                forall|j: int| 0 <= j < i ==> (#[trigger] self@[j]).0@ != name@,
            decreases n - i,
        {
            if str_eq(self.pairs[i].0.as_str(), name) {
                let key = self.pairs[i].0.clone();
                proof {
                    assert(forall|j: int|
                        0 <= j < i ==> (#[trigger] self@[j]).0@ != self@[i as int].0@);
                }
                self.pairs.set(i, (key, value));
                proof {
                    assert(self@ =~= old(self)@.update(
                        i as int,
                        (old(self)@[i as int].0, value),
                    ));
                    assert(forall|k: int| #![trigger self@[k]]
                        0 <= k < self@.len() ==> self@[k].0 == old(self)@[k].0);
                    assert(forall|k: int| #![trigger self@[k]]
                        0 <= k < self@.len() && k != i ==> self@[k].1 == old(self)@[k].1);
                    assert(self@[i as int].1 == value);
                    assert forall|a: int, b: int|
                        0 <= a < b < self@.len() implies (#[trigger] self@[a]).0@ != (
                    #[trigger] self@[b]).0@ by {
                        assert(self@[a].0 == old(self)@[a].0);
                        assert(self@[b].0 == old(self)@[b].0);
                        assert(old(self)@[a].0@ != old(self)@[b].0@);
                    }
                    assert forall|a: int| 0 <= a < self@.len() implies (#[trigger] self@[a]).1.wf()
                        by {
                        if a != i {
                            assert(self@[a].1 == old(self)@[a].1);
                        }
                    }
                    assert(self.wf());
                    assert forall|other: Seq<char>| true implies #[trigger] spec_get(
                        self@,
                        other,
                    ) == if other == name@ {
                        Some(value)
                    } else {
                        spec_get(old(self)@, other)
                    } by {
                        lemma_spec_get_update(old(self)@, i as int, value, other);
                    }
                }
                return ;
            }
            i = i + 1;
        }
        let key = String::from_str(name);
        self.pairs.push((key, value));
        proof {
            assert(forall|k: int| 0 <= k < n ==> #[trigger] self@[k] == old(self)@[k]);
            assert(self@[n as int].0@ == name@);
            assert(self@[n as int].1 == value);
            assert(self.wf());
            assert forall|other: Seq<char>| true implies #[trigger] spec_get(self@, other) == if
                other == name@ {
                Some(value)
            } else {
                spec_get(old(self)@, other)
            } by {
                assert(self@ =~= old(self)@.push((self@[n as int].0, value)));
                lemma_spec_get_push(old(self)@, (self@[n as int].0, value), other);
            }
        }
    }
}

} // verus!
