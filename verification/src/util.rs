//! Process-unique identifiers and a map keyed by them.
//!
//! Ids come from a monotonic counter, which guarantees that an id is never
//! reused while the process lives.

use vstd::prelude::*;
use vstd::hash_map::HashMapWithView;

verus! {

broadcast use vstd::std_specs::hash::group_hash_axioms;

/// An opaque 64-bit identifier.
#[derive(Debug, Clone, Copy, PartialEq, Eq, Structural, Hash)]
pub struct Id(u64);

impl Id {
    pub closed spec fn spec_raw(self) -> u64 {
        self.0
    }

    pub fn into_raw(&self) -> (r: u64)
        ensures
            r == self.spec_raw(),
    {
        self.0
    }

    pub fn from_raw(id: u64) -> (r: Id)
        ensures
            r.spec_raw() == id,
    {
        Id(id)
    }
}

/// Allocates fresh ids by counting up: no id is handed out twice.
#[derive(Debug)]
pub struct IdGenerator {
    next_raw: u64,
}

impl IdGenerator {
    pub closed spec fn spec_next(self) -> u64 {
        self.next_raw
    }

    pub fn new() -> (r: IdGenerator)
        ensures
            r.spec_next() == 0,
    {
        IdGenerator { next_raw: 0 }
    }

    /// The id the next call of [`IdGenerator::next_id`] would hand out.
    pub fn peek_next(&self) -> (r: u64)
        ensures
            r == self.spec_next(),
    {
        self.next_raw
    }

    /// Hands out the next id. Every id returned before the counter wraps is
    /// distinct; the precondition keeps the counter from wrapping.
    pub fn next_id(&mut self) -> (r: Id)
        requires
            old(self).spec_next() < u64::MAX,
        ensures
            r.spec_raw() == old(self).spec_next(),
            final(self).spec_next() == old(self).spec_next() + 1,
    {
        let id = Id(self.next_raw);
        self.next_raw = self.next_raw + 1;
        id
    }
}

/// A map from [`Id`] to `V`.
#[verifier::reject_recursive_types(V)]
pub struct IdHashMap<V> {
    map: HashMapWithView<u64, V>,
}

impl<V> View for IdHashMap<V> {
    type V = Map<u64, V>;

    closed spec fn view(&self) -> Map<u64, V> {
        self.map@
    }
}

impl<V> IdHashMap<V> {
    pub fn new() -> (r: IdHashMap<V>)
        ensures
            r@ == Map::<u64, V>::empty(),
    {
        IdHashMap { map: HashMapWithView::new() }
    }

    /// Inserts `val` under `id`, returning the value previously stored
    /// there, if any.
    pub fn insert(&mut self, id: Id, val: V) -> (r: Option<V>)
        ensures
            final(self)@ == old(self)@.insert(id.spec_raw(), val),
            r is Some <==> old(self)@.contains_key(id.spec_raw()),
            r matches Some(v) ==> old(self)@.contains_key(id.spec_raw())
                && v == old(self)@.index(id.spec_raw()),
    {
        let prev = self.map.remove(&id.into_raw());
        self.map.insert(id.into_raw(), val);
        prev
    }

    pub fn get(&self, id: &Id) -> (r: Option<&V>)
        ensures
            r is Some <==> self@.contains_key(id.spec_raw()),
            r matches Some(v) ==> self@.contains_key(id.spec_raw())
                && *v == self@.index(id.spec_raw()),
    {
        self.map.get(&id.into_raw())
    }

    /// Removes and returns the value stored under `id`, if any.
    pub fn remove(&mut self, id: &Id) -> (r: Option<V>)
        ensures
            final(self)@ == old(self)@.remove(id.spec_raw()),
            r is Some <==> old(self)@.contains_key(id.spec_raw()),
            r matches Some(v) ==> old(self)@.contains_key(id.spec_raw())
                && v == old(self)@.index(id.spec_raw()),
    {
        self.map.remove(&id.into_raw())
    }
}

} // verus!
