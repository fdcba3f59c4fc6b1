//! Struct-field versions of keyed statistics: a cache of stat handles
//! by field name that fills in missing entries on demand.

use vstd::prelude::*;

verus! {

/// A cache of stat handles keyed by field name. A key is added at most
/// once; later lookups hand back the handle cached for it.
pub struct FieldStatThreadLocal<TStatType> {
    entries: Vec<(String, TStatType)>,
}

impl<TStatType> FieldStatThreadLocal<TStatType> {
    /// The cached keys, in insertion order.
    pub closed spec fn keys(&self) -> Seq<Seq<char>> {
        Seq::new(self.entries@.len(), |i: int| self.entries@[i].0@)
    }

    /// The cached stat handles, in insertion order.
    pub closed spec fn stats(&self) -> Seq<TStatType> {
        Seq::new(self.entries@.len(), |i: int| self.entries@[i].1)
    }

    /// Whether a handle is cached under this key.
    pub open spec fn contains_key(&self, key: Seq<char>) -> bool {
        exists|i: int| 0 <= i < self.keys().len() && self.keys()[i] == key
    }

    /// Each key is cached at most once.
    pub open spec fn wf(&self) -> bool {
        forall|i: int, j: int|
            0 <= i < j < self.keys().len() ==> self.keys()[i] != self.keys()[j]
    }

    /// Starts with no cached stats.
    pub fn new() -> (r: Self)
        ensures
            r.keys() == Seq::<Seq<char>>::empty(),
            r.stats() == Seq::<TStatType>::empty(),
            r.wf(),
    {
        let r = FieldStatThreadLocal { entries: Vec::new() };
        proof {
            assert(r.keys() =~= Seq::<Seq<char>>::empty());
            assert(r.stats() =~= Seq::<TStatType>::empty());
        }
        r
    }

    /// The stat cached under `key`, generating and caching a fresh one
    /// first when the key is not present yet. A present key leaves the
    /// cache untouched; an absent key appends exactly one entry, whose
    /// handle the generator produced.
    #[verifier::loop_isolation(false)]
    pub fn get_or_default<G: FnOnce() -> TStatType>(&mut self, key: &String, generate: G) -> (r:
        &TStatType)
        requires
            old(self).wf(),
            call_requires(generate, ()),
        ensures
            final(self).wf(),
            final(self).contains_key(key@),
            old(self).contains_key(key@) ==> *final(self) == *old(self),
            !old(self).contains_key(key@) ==> final(self).keys() == old(self).keys().push(key@)
                && (exists|t: TStatType|
                    #[trigger] call_ensures(generate, (), t)
                        && final(self).stats() == old(self).stats().push(t)),
            exists|i: int|
                0 <= i < final(self).keys().len() && final(self).keys()[i] == key@
                    && *r == final(self).stats()[i],
    {
        let n = self.entries.len();
        let mut i: usize = 0;
        while i < n
            invariant
                n == self.entries@.len(),
                0 <= i <= n,
                forall|j: int| 0 <= j < i ==> self.entries@[j].0@ != key@,
            decreases n - i,
        {
            if self.entries[i].0 == *key {
                proof {
                    assert(self.keys()[i as int] == key@);
                    assert(self.stats()[i as int] == self.entries@[i as int].1);
                }
                return &self.entries[i].1;
            }
            i = i + 1;
        }
        let stat = generate();
        self.entries.push((key.clone(), stat));
        proof {
            assert(self.keys() =~= old(self).keys().push(key@));
            assert(self.stats() =~= old(self).stats().push(stat));
            assert(self.keys()[self.keys().len() - 1] == key@);
        }
        let idx = self.entries.len() - 1;
        &self.entries[idx].1
    }
}

} // verus!
