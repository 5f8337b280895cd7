use vstd::prelude::*;

use crate::id::{Id, IdMap};

verus! {

/// A descriptor that can key a cache: two descriptors are the same key
/// exactly when their views are equal.
pub trait CacheKey: View + Sized {
    fn same_key(&self, other: &Self) -> (r: bool)
        ensures
            r == (self@ == other@),
    ;
}

/// The keys of the items of `s`, in order.
pub open spec fn key_views<E: View>(s: Seq<E>) -> Seq<E::V> {
    s.map_values(|e: E| e@)
}

/// Whether two lists of keys are the same, item by item.
pub fn same_keys<E: CacheKey>(a: &Vec<E>, b: &Vec<E>) -> (r: bool)
    ensures
        r == (key_views(a@) == key_views(b@)),
{
    if a.len() != b.len() {
        assert(key_views(a@).len() != key_views(b@).len());
        return false;
    }
    let mut i: usize = 0;
    while i < a.len()
        invariant
            a@.len() == b@.len(),
            0 <= i <= a@.len(),
            forall|j: int| 0 <= j < i ==> #[trigger] a@[j]@ == b@[j]@,
        decreases a@.len() - i,
    {
        if !a[i].same_key(&b[i]) {
            assert(key_views(a@)[i as int] != key_views(b@)[i as int]);
            return false;
        }
        i = i + 1;
    }
    assert(key_views(a@) =~= key_views(b@));
    true
}

/// A table from descriptor values to the identity of the device object that
/// was built for them.
pub struct DescriptorCache<D> {
    entries: Vec<(D, Id)>,
}

impl<D: CacheKey> View for DescriptorCache<D> {
    type V = Map<D::V, u64>;

    closed spec fn view(&self) -> Map<D::V, u64> {
        Map::new(
            |k: D::V| exists|i: int| 0 <= i < self.entries@.len() && #[trigger] self.entries@[i].0@ == k,
            |k: D::V|
                self.entries@[choose|i: int|
                    0 <= i < self.entries@.len() && #[trigger] self.entries@[i].0@ == k].1@,
        )
    }
}

impl<D: CacheKey> DescriptorCache<D> {
    /// No two entries have the same key.
    pub closed spec fn wf(&self) -> bool {
        forall|i: int, j: int|
            0 <= i < j < self.entries@.len() ==> #[trigger] self.entries@[i].0@
                != #[trigger] self.entries@[j].0@
    }

    /// The number of entries.
    pub closed spec fn size(&self) -> nat {
        self.entries@.len()
    }

    pub fn len(&self) -> (r: usize)
        ensures
            r == self.size(),
    {
        self.entries.len()
    }

    proof fn lemma_entry(&self, i: int)
        requires
            self.wf(),
            0 <= i < self.entries@.len(),
        ensures
            self@.contains_key(self.entries@[i].0@),
            self@[self.entries@[i].0@] == self.entries@[i].1@,
    {
        let k = self.entries@[i].0@;
        assert(self@.contains_key(k));
        let j = choose|j: int| 0 <= j < self.entries@.len() && #[trigger] self.entries@[j].0@ == k;
        if j != i {
            if j < i {
                assert(self.entries@[j].0@ != self.entries@[i].0@);
            } else {
                assert(self.entries@[i].0@ != self.entries@[j].0@);
            }
        }
    }

    pub fn new() -> (r: Self)
        ensures
            r.wf(),
            r@ == Map::<D::V, u64>::empty(),
            r.size() == 0,
    {
        let r = DescriptorCache { entries: Vec::new() };
        assert(r@ =~= Map::<D::V, u64>::empty());
        r
    }

    /// An uncounted handle on the identity cached for `d`, if any.
    pub fn get(&self, d: &D) -> (r: Option<Id>)
        requires
            self.wf(),
        ensures
            r is Some == self@.contains_key(d@),
            r is Some ==> r->Some_0@ == self@[d@] && !r->Some_0.counted(),
    {
        let mut i: usize = 0;
        while i < self.entries.len()
            invariant
                self.wf(),
                0 <= i <= self.entries@.len(),
                forall|j: int| 0 <= j < i ==> #[trigger] self.entries@[j].0@ != d@,
            decreases self.entries@.len() - i,
        {
            if self.entries[i].0.same_key(d) {
                proof {
                    self.lemma_entry(i as int);
                }
                return Some(self.entries[i].1.clone_untracked());
            }
            i = i + 1;
        }
        assert(!self@.contains_key(d@));
        None
    }

    /// Records `id` as the identity built for `d`, in place of any earlier one.
    pub fn insert(&mut self, d: D, id: &Id)
        requires
            old(self).wf(),
        ensures
            final(self).wf(),
            final(self)@ == old(self)@.insert(d@, id@),
            final(self).size() == if old(self)@.contains_key(d@) {
                old(self).size()
            } else {
                old(self).size() + 1
            },
    {
        let ghost key = d@;
        let mut i: usize = 0;
        while i < self.entries.len()
            invariant
                self.wf(),
                self.entries@ == old(self).entries@,
                key == d@,
                0 <= i <= self.entries@.len(),
                forall|j: int| 0 <= j < i ==> #[trigger] self.entries@[j].0@ != key,
            decreases self.entries@.len() - i,
        {
            if self.entries[i].0.same_key(&d) {
                proof {
                    self.lemma_entry(i as int);
                }
                self.entries.set(i, (d, id.clone_untracked()));
                proof {
                    assert forall|a: int, b: int|
                        0 <= a < b < self.entries@.len() implies #[trigger] self.entries@[a].0@
                        != #[trigger] self.entries@[b].0@ by {
                        if a != i && b != i {
                            assert(old(self).entries@[a].0@ != old(self).entries@[b].0@);
                        } else if a == i {
                            assert(old(self).entries@[a].0@ != old(self).entries@[b].0@);
                        } else {
                            assert(old(self).entries@[a].0@ != old(self).entries@[b].0@);
                        }
                    }
                    assert forall|k: D::V| #[trigger]
                        self@.contains_key(k) == old(self)@.insert(key, id@).contains_key(k) by {
                        if old(self)@.contains_key(k) {
                            let m = choose|m: int|
                                0 <= m < old(self).entries@.len()
                                    && #[trigger] old(self).entries@[m].0@ == k;
                            assert(self.entries@[m].0@ == k);
                        }
                        if self@.contains_key(k) {
                            let m = choose|m: int|
                                0 <= m < self.entries@.len() && #[trigger] self.entries@[m].0@ == k;
                            if m != i {
                                assert(old(self).entries@[m].0@ == k);
                            }
                        }
                    }
                    assert forall|k: D::V| #[trigger] self@.contains_key(k) implies self@[k]
                        == old(self)@.insert(key, id@)[k] by {
                        let m = choose|m: int|
                            0 <= m < self.entries@.len() && #[trigger] self.entries@[m].0@ == k;
                        self.lemma_entry(m);
                        if m != i {
                            old(self).lemma_entry(m);
                        }
                    }
                    assert(self@ =~= old(self)@.insert(key, id@));
                }
                return;
            }
            i = i + 1;
        }
        proof {
            if old(self)@.contains_key(key) {
                let m = choose|m: int|
                    0 <= m < old(self).entries@.len() && #[trigger] old(self).entries@[m].0@ == key;
                assert(false);
            }
        }
        self.entries.push((d, id.clone_untracked()));
        proof {
            let n = old(self).entries@.len() as int;
            assert forall|a: int, b: int|
                0 <= a < b < self.entries@.len() implies #[trigger] self.entries@[a].0@
                != #[trigger] self.entries@[b].0@ by {
                if b < n {
                    assert(old(self).entries@[a].0@ != old(self).entries@[b].0@);
                }
            }
            assert forall|k: D::V| #[trigger]
                self@.contains_key(k) == old(self)@.insert(key, id@).contains_key(k) by {
                if old(self)@.contains_key(k) {
                    let m = choose|m: int|
                        0 <= m < old(self).entries@.len() && #[trigger] old(self).entries@[m].0@
                            == k;
                    assert(self.entries@[m].0@ == k);
                }
                if k == key {
                    assert(self.entries@[n].0@ == k);
                }
                if self@.contains_key(k) {
                    let m = choose|m: int|
                        0 <= m < self.entries@.len() && #[trigger] self.entries@[m].0@ == k;
                    if m != n {
                        assert(old(self).entries@[m].0@ == k);
                    }
                }
            }
            assert forall|k: D::V| #[trigger] self@.contains_key(k) implies self@[k] == old(
                self,
            )@.insert(key, id@)[k] by {
                let m = choose|m: int|
                    0 <= m < self.entries@.len() && #[trigger] self.entries@[m].0@ == k;
                self.lemma_entry(m);
                if m != n {
                    old(self).lemma_entry(m);
                }
            }
            assert(self@ =~= old(self)@.insert(key, id@));
        }
    }
}

/// Whether resolving key `k` finds an object that is still in the store.
pub open spec fn cache_hit<K, T>(c: Map<K, u64>, s: Map<u64, (u32, T)>, k: K) -> bool {
    c.contains_key(k) && s.contains_key(c[k])
}

/// The outcome of resolving `k` against cache `c` and store `s`, whose next
/// fresh identity is `next`: `r` is the identity handed back, `c1` and `s1`
/// are the cache and the store afterwards.
///
/// On a hit the cached identity gains one reference and nothing is built; on
/// a miss one object is built and stored under the fresh identity, which the
/// cache then records for `k`.
pub open spec fn resolved<K, T>(
    c: Map<K, u64>,
    s: Map<u64, (u32, T)>,
    next: nat,
    k: K,
    c1: Map<K, u64>,
    s1: Map<u64, (u32, T)>,
    r: u64,
) -> bool {
    if cache_hit(c, s, k) {
        &&& r == c[k]
        &&& c1 == c
        &&& s1 == s.insert(r, ((s[r].0 + 1) as u32, s[r].1))
    } else {
        &&& r == next
        &&& c1 == c.insert(k, r)
        &&& exists|v: T| s1 == s.insert(r, (1u32, v))
    }
}

/// The next fresh identity after resolving `k`: unchanged on a hit, one
/// further on a miss.
pub open spec fn next_after<K, T>(c: Map<K, u64>, s: Map<u64, (u32, T)>, next: nat, k: K) -> nat {
    if cache_hit(c, s, k) {
        next
    } else {
        next + 1
    }
}

/// Every identity the cache records was handed out before `next`, and no two
/// keys share one.
pub open spec fn ids_fresh_and_distinct<K>(c: Map<K, u64>, next: nat) -> bool {
    &&& forall|k: K| #[trigger] c.contains_key(k) ==> (c[k] as nat) < next
    &&& forall|k1: K, k2: K|
        #[trigger] c.contains_key(k1) && #[trigger] c.contains_key(k2) && k1 != k2 ==> c[k1]
            != c[k2]
}

/// A resolution keeps the cache's identities distinct and below the next
/// fresh one.
pub proof fn lemma_resolved_keeps_ids_distinct<K, T>(
    c: Map<K, u64>,
    s: Map<u64, (u32, T)>,
    next: nat,
    k: K,
    c1: Map<K, u64>,
    s1: Map<u64, (u32, T)>,
    r: u64,
)
    requires
        ids_fresh_and_distinct(c, next),
        resolved(c, s, next, k, c1, s1, r),
    ensures
        ids_fresh_and_distinct(c1, next_after(c, s, next, k)),
{
    if !cache_hit(c, s, k) {
        assert forall|k1: K, k2: K|
            #[trigger] c1.contains_key(k1) && #[trigger] c1.contains_key(k2) && k1 != k2 implies c1[k1]
            != c1[k2] by {
            if k1 != k && k2 != k {
                assert(c.contains_key(k1) && c.contains_key(k2));
            } else if k1 == k {
                assert(c.contains_key(k2));
            } else {
                assert(c.contains_key(k1));
            }
        }
        assert forall|k1: K| #[trigger] c1.contains_key(k1) implies (c1[k1] as nat) < next + 1 by {
            if k1 != k {
                assert(c.contains_key(k1));
            }
        }
    }
}

/// Until the store is cleaned, two resolutions in a row hand back the same
/// identity exactly when they resolve the same key.
pub proof fn lemma_resolve_same_identity_iff_same_key<K, T>(
    c: Map<K, u64>,
    s: Map<u64, (u32, T)>,
    next: nat,
    k1: K,
    c1: Map<K, u64>,
    s1: Map<u64, (u32, T)>,
    r1: u64,
    k2: K,
    c2: Map<K, u64>,
    s2: Map<u64, (u32, T)>,
    r2: u64,
)
    requires
        forall|j: u64| s.contains_key(j) ==> (j as nat) < next,
        ids_fresh_and_distinct(c, next),
        resolved(c, s, next, k1, c1, s1, r1),
        resolved(c1, s1, next_after(c, s, next, k1), k2, c2, s2, r2),
    ensures
        r1 == r2 <==> k1 == k2,
{
    let next1 = next_after(c, s, next, k1);
    lemma_resolved_keeps_ids_distinct(c, s, next, k1, c1, s1, r1);
    assert(c1.contains_key(k1) && c1[k1] == r1);
    if k1 == k2 {
        lemma_resolve_twice_same_identity(c, s, next, next1, k1, c1, s1, r1, c2, s2, r2);
    } else {
        if cache_hit(c1, s1, k2) {
            assert(c1.contains_key(k2));
        }
    }
}

/// Resolving the same key twice in a row hands back the same identity both
/// times; the second resolution builds nothing, so the store holds the same
/// identities after it, and the first added at most the one it handed back.
pub proof fn lemma_resolve_twice_same_identity<K, T>(
    c: Map<K, u64>,
    s: Map<u64, (u32, T)>,
    next: nat,
    next1: nat,
    k: K,
    c1: Map<K, u64>,
    s1: Map<u64, (u32, T)>,
    r1: u64,
    c2: Map<K, u64>,
    s2: Map<u64, (u32, T)>,
    r2: u64,
)
    requires
        forall|j: u64| s.contains_key(j) ==> (j as nat) < next,
        resolved(c, s, next, k, c1, s1, r1),
        resolved(c1, s1, next1, k, c2, s2, r2),
    ensures
        r2 == r1,
        c2 == c1,
        s2.dom() == s1.dom(),
        s1.dom() == s.dom() || (!s.contains_key(r1) && s1.dom() == s.dom().insert(r1)),
{
    if cache_hit(c, s, k) {
        assert(s1.dom() =~= s.dom());
        assert(cache_hit(c1, s1, k));
    } else {
        let v = choose|v: T| s1 == s.insert(r1, (1u32, v));
        assert(s1.dom() =~= s.dom().insert(r1));
        assert(cache_hit(c1, s1, k));
    }
    assert(s2.dom() =~= s1.dom());
}

/// A descriptor cache together with the store of the objects built for it.
pub struct Registry<D, T> {
    pub cache: DescriptorCache<D>,
    pub store: IdMap<T>,
}

impl<D: CacheKey, T> Registry<D, T> {
    /// The cache is well formed, and the identities it records are distinct
    /// and were handed out by the store.
    pub open spec fn wf(&self) -> bool {
        &&& self.cache.wf()
        &&& ids_fresh_and_distinct(self.cache@, self.store.next_value())
    }

    pub fn new() -> (r: Self)
        ensures
            r.wf(),
            r.cache.wf(),
            r.cache@ == Map::<D::V, u64>::empty(),
            r.store@ == Map::<u64, (u32, T)>::empty(),
            r.store.next_value() == 0,
    {
        Registry { cache: DescriptorCache::new(), store: IdMap::new() }
    }

    /// A counted handle on the object already built for `d`, if the cache
    /// knows one that the store still holds.
    pub fn lookup(&mut self, d: &D) -> (r: Option<Id>)
        requires
            old(self).cache.wf(),
            cache_hit(old(self).cache@, old(self).store@, d@) ==> old(self).store@[old(
                self,
            ).cache@[d@]].0 < u32::MAX,
        ensures
            final(self).cache == old(self).cache,
            final(self).store.next_value() == old(self).store.next_value(),
            r is Some == cache_hit(old(self).cache@, old(self).store@, d@),
            r is Some ==> {
                let k = old(self).cache@[d@];
                &&& r->Some_0@ == k
                &&& r->Some_0.counted()
                &&& final(self).store@ == old(self).store@.insert(
                    k,
                    ((old(self).store@[k].0 + 1) as u32, old(self).store@[k].1),
                )
            },
            r is None ==> final(self).store@ == old(self).store@,
    {
        match self.cache.get(d) {
            Some(id) => {
                if self.store.contains(&id) {
                    Some(self.store.clone_id(&id))
                } else {
                    None
                }
            },
            None => None,
        }
    }

    /// Stores `value`, built for `d`, under a fresh identity that the cache
    /// then records for `d`.
    pub fn register(&mut self, d: D, value: T) -> (r: Id)
        requires
            old(self).wf(),
            old(self).store.next_value() < u64::MAX,
        ensures
            final(self).wf(),
            r@ == old(self).store.next_value(),
            r.counted(),
            final(self).store.next_value() == old(self).store.next_value() + 1,
            !old(self).store@.contains_key(r@),
            final(self).store@ == old(self).store@.insert(r@, (1u32, value)),
            final(self).cache@ == old(self).cache@.insert(d@, r@),
            final(self).cache.size() == if old(self).cache@.contains_key(d@) {
                old(self).cache.size()
            } else {
                old(self).cache.size() + 1
            },
    {
        let fresh = self.store.next_id();
        proof {
            if old(self).store@.contains_key(fresh@) {
                old(self).store.lemma_present_were_allocated(fresh@);
            }
        }
        let ghost key = d@;
        self.cache.insert(d, &fresh);
        let r = self.store.insert(fresh, value);
        proof {
            let c = old(self).cache@;
            let c1 = self.cache@;
            let n = old(self).store.next_value();
            assert forall|k1: D::V, k2: D::V|
                #[trigger] c1.contains_key(k1) && #[trigger] c1.contains_key(k2) && k1 != k2 implies c1[k1]
                != c1[k2] by {
                if k1 != key && k2 != key {
                    assert(c.contains_key(k1) && c.contains_key(k2));
                } else if k1 == key {
                    assert(c.contains_key(k2));
                } else {
                    assert(c.contains_key(k1));
                }
            }
            assert forall|k1: D::V| #[trigger] c1.contains_key(k1) implies (c1[k1] as nat) < n + 1 by {
                if k1 != key {
                    assert(c.contains_key(k1));
                }
            }
        }
        r
    }

    /// The identity of the object for `d`: the one already built where the
    /// cache knows it, else one that `build` makes now.
    pub fn resolve<F: FnOnce(&D) -> T>(&mut self, d: D, build: F) -> (r: Id)
        requires
            old(self).wf(),
            old(self).store.next_value() < u64::MAX,
            cache_hit(old(self).cache@, old(self).store@, d@) ==> old(self).store@[old(
                self,
            ).cache@[d@]].0 < u32::MAX,
            build.requires((&d,)),
        ensures
            final(self).wf(),
            r.counted(),
            final(self).store.next_value() == next_after(
                old(self).cache@,
                old(self).store@,
                old(self).store.next_value(),
                d@,
            ),
            resolved(
                old(self).cache@,
                old(self).store@,
                old(self).store.next_value(),
                d@,
                final(self).cache@,
                final(self).store@,
                r@,
            ),
            !cache_hit(old(self).cache@, old(self).store@, d@) ==> exists|v: T|
                build.ensures((&d,), v) && final(self).store@ == old(self).store@.insert(
                    r@,
                    (1u32, v),
                ),
            cache_hit(old(self).cache@, old(self).store@, d@) ==> final(self).cache.size() == old(
                self,
            ).cache.size(),
    {
        match self.lookup(&d) {
            Some(id) => id,
            None => {
                let value = build(&d);
                self.register(d, value)
            },
        }
    }
}

} // verus!
