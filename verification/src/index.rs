//! A mapping from the archive's 64-bit path hashes to small value records.
//! The value being "hashed" is already a fully formed key, so an ordinary
//! map keyed by the 64-bit value suffices; a convenience lookup hashes a
//! string key on the fly (covering the no-extension case used for folders).

use crate::hash::{name_hash, spec_path_hash};
use std::collections::HashMap;
use vstd::prelude::*;
use vstd::string::StringSliceAdditionalSpecFns;

verus! {

/// Map from a path hash to a value record.  Inserting an already present
/// hash silently overwrites, mirroring the archive's own on-disk indexing,
/// which provides no disambiguation either.
pub struct BSAHashMap<V> {
    m: HashMap<u64, V>,
}

impl<V> View for BSAHashMap<V> {
    type V = Map<u64, V>;

    closed spec fn view(&self) -> Map<u64, V> {
        self.m@
    }
}

impl<V> Default for BSAHashMap<V> {
    /// An empty map.
    fn default() -> (r: Self)
        ensures
            r@ == Map::<u64, V>::empty(),
    {
        Self::new()
    }
}

impl<V> BSAHashMap<V> {
    /// An empty map.
    pub fn new() -> (r: Self)
        ensures
            r@ == Map::<u64, V>::empty(),
    {
        BSAHashMap { m: HashMap::new() }
    }

    /// Insert data directly under a 64-bit hash already known from the
    /// wire.
    pub fn insert(&mut self, k: u64, v: V)
        ensures
            final(self)@ == old(self)@.insert(k, v),
    {
        self.m.insert(k, v);
    }

    /// Retrieve the record stored under the path hash of a string key with
    /// no extension, as data and scripts name folders.
    pub fn get(&self, k: &str) -> (r: Option<&V>)
        ensures
            match r {
                Some(v) => self@.contains_key(spec_path_hash(k.spec_bytes(), Seq::empty()))
                    && *v == self@[spec_path_hash(k.spec_bytes(), Seq::empty())],
                None => !self@.contains_key(spec_path_hash(k.spec_bytes(), Seq::empty())),
            },
    {
        let h = name_hash(k.as_bytes());
        self.m.get(&h)
    }

    /// Retrieve the record stored under a raw 64-bit hash; looking up a
    /// file by full path means hashing the split name and extension first.
    pub fn get_hash(&self, k: u64) -> (r: Option<&V>)
        ensures
            match r {
                Some(v) => self@.contains_key(k) && *v == self@[k],
                None => !self@.contains_key(k),
            },
    {
        self.m.get(&k)
    }

    /// Number of hashes with a stored record.
    pub fn len(&self) -> (n: usize)
        ensures
            n == self@.dom().len(),
    {
        self.m.len()
    }
}

} // verus!
