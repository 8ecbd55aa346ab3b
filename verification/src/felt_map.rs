//! A hash map keyed by 256-bit words.

use crate::felt::Felt;
use std::collections::HashMap;
use vstd::prelude::*;

verus! {

broadcast use vstd::std_specs::hash::group_hash_axioms;

/// A map from [`Felt`] keys to values with constant-time lookup.
///
/// The table is split in two levels, the first keyed by the low limb of the key and the
/// second by the high limb. Its view is the single mathematical map from whole keys to
/// values.
pub struct FeltMap<V> {
    rows: HashMap<u128, HashMap<u128, V>>,
}

impl<V> View for FeltMap<V> {
    type V = Map<Felt, V>;

    closed spec fn view(&self) -> Map<Felt, V> {
        Map::new(
            |k: Felt| self.rows@.contains_key(k.lo) && self.rows@[k.lo]@.contains_key(k.hi),
            |k: Felt| self.rows@[k.lo]@[k.hi],
        )
    }
}

impl<V> FeltMap<V> {
    /// An empty map.
    pub fn new() -> (r: Self)
        ensures
            r@ == Map::<Felt, V>::empty(),
    {
        let r = FeltMap { rows: HashMap::new() };
        assert(r@ =~= Map::<Felt, V>::empty());
        r
    }

    /// Whether `key` has a value.
    pub fn contains_key(&self, key: Felt) -> (r: bool)
        ensures
            r == self@.contains_key(key),
    {
        match self.rows.get(&key.lo) {
            Some(row) => row.contains_key(&key.hi),
            None => false,
        }
    }

    /// The value stored under `key`, if there is one.
    pub fn get(&self, key: Felt) -> (r: Option<&V>)
        ensures
            r == (if self@.contains_key(key) {
                Some(&self@[key])
            } else {
                None
            }),
    {
        match self.rows.get(&key.lo) {
            Some(row) => row.get(&key.hi),
            None => None,
        }
    }

    /// Stores `value` under `key`, replacing any earlier value.
    pub fn insert(&mut self, key: Felt, value: V)
        ensures
            final(self)@ == old(self)@.insert(key, value),
    {
        let mut row = match self.rows.remove(&key.lo) {
            Some(row) => row,
            None => HashMap::new(),
        };
        row.insert(key.hi, value);
        self.rows.insert(key.lo, row);
        assert(self@ =~= old(self)@.insert(key, value));
    }

    /// Removes `key` and hands back the value it had, if any.
    pub fn remove(&mut self, key: Felt) -> (r: Option<V>)
        ensures
            final(self)@ == old(self)@.remove(key),
            r == (if old(self)@.contains_key(key) {
                Some(old(self)@[key])
            } else {
                None
            }),
    {
        match self.rows.remove(&key.lo) {
            Some(mut row) => {
                let r = row.remove(&key.hi);
                if !row.is_empty() {
                    self.rows.insert(key.lo, row);
                }
                assert(self@ =~= old(self)@.remove(key));
                r
            },
            None => {
                assert(self@ =~= old(self)@.remove(key));
                None
            },
        }
    }
}

} // verus!
