//! A set of object ids.

use crate::oid::Oid;
use std::collections::HashMap;
use vstd::prelude::*;
use vstd::std_specs::hash::*;

verus! {

/// The first eight bytes of an id as one number, the first byte being the
/// most significant.
pub open spec fn short_key(id: Oid) -> u64 {
    (((((((id@[0] as int * 256 + id@[1]) * 256 + id@[2]) * 256 + id@[3]) * 256 + id@[4]) * 256
        + id@[5]) * 256 + id@[6]) * 256 + id@[7]) as u64
}

/// The first eight bytes of an id as one number.
fn short_key_of(id: &Oid) -> (key: u64)
    ensures
        key == short_key(*id),
{
    let bytes = id.as_bytes();
    let mut key: u64 = bytes[0] as u64;
    key = key * 256 + bytes[1] as u64;
    key = key * 256 + bytes[2] as u64;
    key = key * 256 + bytes[3] as u64;
    key = key * 256 + bytes[4] as u64;
    key = key * 256 + bytes[5] as u64;
    key = key * 256 + bytes[6] as u64;
    key = key * 256 + bytes[7] as u64;
    key
}

/// Whether `id` is among `ids`.
fn is_among(ids: &Vec<Oid>, id: &Oid) -> (among: bool)
    ensures
        among == ids@.contains(*id),
{
    let mut i: usize = 0;
    while i < ids.len()
        invariant
            i <= ids.len(),
            forall|j: int| 0 <= j < i ==> ids@[j] != *id,
        decreases ids.len() - i,
    {
        if ids[i].same(id) {
            return true;
        }
        i += 1;
    }
    false
}

/// A set of object ids, held in buckets by the first bytes of each id.
pub struct OidSet {
    buckets: HashMap<u64, Vec<Oid>>,
}

impl View for OidSet {
    type V = Set<Oid>;

    closed spec fn view(&self) -> Set<Oid> {
        Set::new(
            |id: Oid|
                self.buckets@.contains_key(short_key(id)) && self.buckets@[short_key(id)]@.contains(
                    id,
                ),
        )
    }
}

impl OidSet {
    /// The empty set.
    pub fn new() -> (set: OidSet)
        ensures
            set@ == Set::<Oid>::empty(),
    {
        let set = OidSet { buckets: HashMap::new() };
        assert(set@ =~= Set::<Oid>::empty());
        set
    }

    /// Whether the id is in the set.
    pub fn contains(&self, id: &Oid) -> (found: bool)
        ensures
            found == self@.contains(*id),
    {
        broadcast use group_hash_axioms;

        let key = short_key_of(id);
        match self.buckets.get(&key) {
            Some(bucket) => is_among(bucket, id),
            None => false,
        }
    }

    /// Puts the id into the set.
    pub fn insert(&mut self, id: Oid)
        ensures
            final(self)@ == old(self)@.insert(id),
    {
        broadcast use group_hash_axioms;

        let key = short_key_of(&id);
        let mut bucket = match self.buckets.remove(&key) {
            Some(bucket) => bucket,
            None => Vec::new(),
        };
        let ghost before = bucket@;
        bucket.push(id);
        self.buckets.insert(key, bucket);
        proof {
            assert forall|other: Oid| self@.contains(other) == old(self)@.insert(id).contains(
                other,
            ) by {
                if short_key(other) == key {
                    assert(bucket@ == before.push(id));
                    assert(bucket@.contains(other) <==> before.contains(other) || other == id) by {
                        if before.contains(other) {
                            let i = choose|i: int| 0 <= i < before.len() && before[i] == other;
                            assert(bucket@[i] == other);
                        }
                        if other == id {
                            assert(bucket@[before.len() as int] == other);
                        }
                    }
                }
            }
            assert(self@ =~= old(self)@.insert(id));
        }
    }
}

} // verus!
