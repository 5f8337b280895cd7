use vstd::prelude::*;

verus! {

/// A handle that stands for a device object that may or may not still exist.
///
/// Two handles denote the same object exactly when their values are equal. A
/// counted handle is one of the live references that a store keeps track of;
/// an uncounted handle names the object without keeping it alive.
#[derive(Debug)]
pub struct Id {
    value: u64,
    counted: bool,
}

impl View for Id {
    type V = u64;

    closed spec fn view(&self) -> u64 {
        self.value
    }
}

impl Id {
    /// Whether this handle is one of the live references of its store.
    pub closed spec fn counted(&self) -> bool {
        self.counted
    }

    pub fn value(&self) -> (r: u64)
        ensures
            r == self@,
    {
        self.value
    }

    pub fn is_counted(&self) -> (r: bool)
        ensures
            r == self.counted(),
    {
        self.counted
    }

    /// A handle on the same object that does not count as a live reference.
    pub fn clone_untracked(&self) -> (r: Id)
        ensures
            r@ == self@,
            !r.counted(),
    {
        Id { value: self.value, counted: false }
    }

    /// The number of live references that `store` records for this object
    /// (zero when the store holds no such object).
    pub fn ref_count<T>(&self, store: &IdMap<T>) -> (r: u32)
        ensures
            store@.contains_key(self@) ==> r == store@[self@].0,
            !store@.contains_key(self@) ==> r == 0,
    {
        let i = self.value;
        if i < store.slots.len() as u64 {
            match &store.slots[i as usize] {
                Some(slot) => slot.refs,
                None => 0,
            }
        } else {
            0
        }
    }
}

impl PartialEq for Id {
    fn eq(&self, other: &Id) -> (r: bool) {
        self.value == other.value
    }
}

impl vstd::std_specs::cmp::PartialEqSpecImpl for Id {
    open spec fn obeys_eq_spec() -> bool {
        true
    }

    open spec fn eq_spec(&self, other: &Id) -> bool {
        self@ == other@
    }
}

impl Eq for Id {}

/// The order of identities by value.
pub open spec fn value_order(a: u64, b: u64) -> Option<core::cmp::Ordering> {
    if a < b {
        Some(core::cmp::Ordering::Less)
    } else if a == b {
        Some(core::cmp::Ordering::Equal)
    } else {
        Some(core::cmp::Ordering::Greater)
    }
}

impl PartialOrd for Id {
    fn partial_cmp(&self, other: &Id) -> (r: Option<core::cmp::Ordering>) {
        if self.value < other.value {
            Some(core::cmp::Ordering::Less)
        } else if self.value == other.value {
            Some(core::cmp::Ordering::Equal)
        } else {
            Some(core::cmp::Ordering::Greater)
        }
    }
}

impl vstd::std_specs::cmp::PartialOrdSpecImpl for Id {
    open spec fn obeys_partial_cmp_spec() -> bool {
        true
    }

    open spec fn partial_cmp_spec(&self, other: &Id) -> Option<core::cmp::Ordering> {
        value_order(self@, other@)
    }
}

impl crate::cache::CacheKey for Id {
    fn same_key(&self, other: &Id) -> (r: bool) {
        self.value == other.value
    }
}

struct Slot<T> {
    refs: u32,
    value: T,
}

/// A table from identities to realized device objects, with its own
/// generator of fresh identities and a live-reference count per object.
///
/// Identities are handed out in increasing order from zero; the table keeps
/// one slot per identity ever handed out.
pub struct IdMap<T> {
    slots: Vec<Option<Slot<T>>>,
}

impl<T> View for IdMap<T> {
    /// Each present identity, with its live-reference count and its object.
    type V = Map<u64, (u32, T)>;

    closed spec fn view(&self) -> Map<u64, (u32, T)> {
        Map::new(
            |k: u64| (k as int) < self.slots@.len() && self.slots@[k as int] is Some,
            |k: u64| (self.slots@[k as int]->Some_0.refs, self.slots@[k as int]->Some_0.value),
        )
    }
}

/// What `clean` leaves of a table: the entries whose count is not zero.
pub open spec fn live_entries<T>(m: Map<u64, (u32, T)>) -> Map<u64, (u32, T)> {
    Map::new(|k: u64| m.contains_key(k) && m[k].0 > 0, |k: u64| m[k])
}

/// What dropping a handle on `k` does to a table: a counted handle gives up
/// its reference; an uncounted one changes nothing.
pub open spec fn after_release<T>(m: Map<u64, (u32, T)>, k: u64, counted: bool) -> Map<
    u64,
    (u32, T),
> {
    if counted && m.contains_key(k) && m[k].0 > 0 {
        m.insert(k, ((m[k].0 - 1) as u32, m[k].1))
    } else {
        m
    }
}

/// Once the last counted handle on an object is released, cleaning the table
/// removes the object, so a later lookup finds nothing.
pub proof fn lemma_reclaimed_after_last_release<T>(m: Map<u64, (u32, T)>, k: u64)
    requires
        m.contains_key(k),
        m[k].0 == 1,
    ensures
        !live_entries(after_release(m, k, true)).contains_key(k),
{
}

impl<T> IdMap<T> {
    /// The identity that `next_id` hands out next.
    pub closed spec fn next_value(&self) -> nat {
        self.slots@.len()
    }

    /// Every present identity was handed out by this table.
    pub proof fn lemma_present_were_allocated(&self, k: u64)
        requires
            self@.contains_key(k),
        ensures
            (k as nat) < self.next_value(),
    {
    }

    pub fn new() -> (r: Self)
        ensures
            r@ == Map::<u64, (u32, T)>::empty(),
            r.next_value() == 0,
    {
        let r = IdMap { slots: Vec::new() };
        assert(r@ =~= Map::<u64, (u32, T)>::empty());
        r
    }

    /// A fresh identity, not counted as a live reference.
    pub fn next_id(&mut self) -> (r: Id)
        requires
            old(self).next_value() < u64::MAX,
        ensures
            r@ == old(self).next_value(),
            !r.counted(),
            final(self).next_value() == old(self).next_value() + 1,
            final(self)@ == old(self)@,
    {
        let value = self.slots.len() as u64;
        self.slots.push(None);
        assert(final(self)@ =~= old(self)@);
        Id { value, counted: false }
    }

    /// Stores `value` under `id` and returns a counted handle on it.
    pub fn insert(&mut self, id: Id, value: T) -> (r: Id)
        requires
            (id@ as nat) < old(self).next_value(),
            old(self)@.contains_key(id@) ==> old(self)@[id@].0 < u32::MAX,
        ensures
            r@ == id@,
            r.counted(),
            final(self).next_value() == old(self).next_value(),
            final(self)@ == old(self)@.insert(
                id@,
                (
                    (if old(self)@.contains_key(id@) {
                        old(self)@[id@].0 + 1
                    } else {
                        1
                    }) as u32,
                    value,
                ),
            ),
    {
        let n = self.slots.len();
        assert((id.value as int) < (n as int));
        let i = id.value as usize;
        assert(i as int == id@ as int);
        assert(old(self)@.contains_key(id@) == (self.slots@[i as int] is Some));
        let refs: u32 = match &self.slots[i] {
            Some(slot) => slot.refs + 1,
            None => 1,
        };
        self.slots.set(i, Some(Slot { refs, value }));
        proof {
            let want = old(self)@.insert(
                id@,
                (
                    (if old(self)@.contains_key(id@) {
                        old(self)@[id@].0 + 1
                    } else {
                        1
                    }) as u32,
                    value,
                ),
            );
            assert(self@ =~= want);
        }
        Id { value: id.value, counted: true }
    }

    /// The identity that `next_id` hands out next, as a number.
    pub fn allocated(&self) -> (r: usize)
        ensures
            r == self.next_value(),
    {
        self.slots.len()
    }

    /// Whether every present object can take one more reference.
    pub fn counts_below_limit(&self) -> (r: bool)
        ensures
            r == (forall|k: u64| #[trigger] self@.contains_key(k) ==> self@[k].0 < u32::MAX),
    {
        let mut i: usize = 0;
        while i < self.slots.len()
            invariant
                0 <= i <= self.slots@.len(),
                forall|j: int|
                    0 <= j < i && #[trigger] self.slots@[j] is Some ==> self.slots@[j]->Some_0.refs
                        < u32::MAX,
            decreases self.slots@.len() - i,
        {
            let full = match &self.slots[i] {
                Some(slot) => slot.refs == u32::MAX,
                None => false,
            };
            if full {
                proof {
                    let k = i as u64;
                    assert(k as int == i as int);
                    assert(self@.contains_key(k));
                }
                return false;
            }
            i = i + 1;
        }
        proof {
            assert forall|k: u64| #[trigger] self@.contains_key(k) implies self@[k].0 < u32::MAX by {
                assert(self.slots@[k as int] is Some);
            }
        }
        true
    }

    pub fn contains(&self, id: &Id) -> (r: bool)
        ensures
            r == self@.contains_key(id@),
    {
        id.value < self.slots.len() as u64 && self.slots[id.value as usize].is_some()
    }

    /// The object stored under `id`, or `None` where there is none.
    pub fn get(&self, id: &Id) -> (r: Option<&T>)
        ensures
            r is Some == self@.contains_key(id@),
            r is Some ==> *r->Some_0 == self@[id@].1,
    {
        if id.value < self.slots.len() as u64 {
            match &self.slots[id.value as usize] {
                Some(slot) => Some(&slot.value),
                None => None,
            }
        } else {
            None
        }
    }

    /// A new counted handle on a present object.
    pub fn clone_id(&mut self, id: &Id) -> (r: Id)
        requires
            old(self)@.contains_key(id@),
            old(self)@[id@].0 < u32::MAX,
        ensures
            r@ == id@,
            r.counted(),
            final(self).next_value() == old(self).next_value(),
            final(self)@ == old(self)@.insert(
                id@,
                ((old(self)@[id@].0 + 1) as u32, old(self)@[id@].1),
            ),
    {
        let n = self.slots.len();
        assert((id.value as int) < (n as int));
        let i = id.value as usize;
        assert(i as int == id@ as int);
        assert(self.slots@[i as int] is Some);
        let slot = self.slots[i].take();
        // `take` leaves `None` behind; the slot goes back with one more reference.
        if let Some(mut s) = slot {
            s.refs = s.refs + 1;
            self.slots.set(i, Some(s));
        }
        assert(self@ =~= old(self)@.insert(
            id@,
            ((old(self)@[id@].0 + 1) as u32, old(self)@[id@].1),
        ));
        Id { value: id.value, counted: true }
    }

    /// Gives up the reference that `id` holds, if it is counted.
    pub fn release(&mut self, id: Id)
        ensures
            final(self).next_value() == old(self).next_value(),
            final(self)@ == after_release(old(self)@, id@, id.counted()),
    {
        if id.counted && id.value < self.slots.len() as u64 {
            let n = self.slots.len();
            assert((id.value as int) < (n as int));
            let i = id.value as usize;
            assert(i as int == id@ as int);
            let slot = self.slots[i].take();
            match slot {
                Some(mut s) => {
                    if s.refs > 0 {
                        s.refs = s.refs - 1;
                    }
                    self.slots.set(i, Some(s));
                },
                None => {},
            }
            assert(self@ =~= after_release(old(self)@, id@, id.counted()));
        } else {
            assert(self@ =~= after_release(old(self)@, id@, id.counted()));
        }
    }

    /// Removes every object whose live-reference count is zero.
    pub fn clean(&mut self)
        ensures
            final(self).next_value() == old(self).next_value(),
            final(self)@ == live_entries(old(self)@),
    {
        let n = self.slots.len();
        let mut i: usize = 0;
        while i < n
            invariant
                0 <= i <= n,
                n == old(self).slots@.len(),
                self.slots@.len() == n,
                forall|j: int|
                    i <= j < n ==> #[trigger] self.slots@[j] == old(self).slots@[j],
                forall|j: int|
                    0 <= j < i ==> (#[trigger] self.slots@[j] is Some <==> (old(self).slots@[j] is Some
                        && old(self).slots@[j]->Some_0.refs > 0)),
                forall|j: int|
                    0 <= j < i && #[trigger] self.slots@[j] is Some ==> self.slots@[j]
                        == old(self).slots@[j],
            decreases n - i,
        {
            let dead = match &self.slots[i] {
                Some(slot) => slot.refs == 0,
                None => false,
            };
            if dead {
                self.slots.set(i, None);
            }
            i = i + 1;
        }
        assert(self@ =~= live_entries(old(self)@));
    }
}

} // verus!
