//! Hash tables with number keys.

use vstd::prelude::*;

verus! {

/// A [`hashbrown::HashMap`] from numbers to numbers.
#[verifier::external_body]
pub struct KeyMap {
    inner: hashbrown::HashMap<u128, u64>,
}

/// What a table holds.
pub uninterp spec fn entries(map: KeyMap) -> Map<u128, u64>;

impl View for KeyMap {
    type V = Map<u128, u64>;

    open spec fn view(&self) -> Map<u128, u64> {
        entries(*self)
    }
}

impl KeyMap {
    /// Calls `hashbrown::HashMap::new`, which makes a table that holds nothing.
    #[verifier::external_body]
    pub(crate) fn new() -> (map: Self)
        ensures
            (entries(map) == Map::<u128, u64>::empty()),
    {
        KeyMap { inner: hashbrown::HashMap::new() }
    }

    /// Calls `hashbrown::HashMap::get`, which finds the value of a key, if the table holds one.
    #[verifier::external_body]
    pub(crate) fn get(&self, key: u128) -> (value: Option<u64>)
        ensures
            value == (if entries(*self).contains_key(key) {
                Some(entries(*self)[key])
            } else {
                None
            }),
    {
        self.inner.get(&key).copied()
    }

    /// Calls `hashbrown::HashMap::insert`, which sets the value of a key and returns the one that
    /// it had.
    #[verifier::external_body]
    pub(crate) fn insert(&mut self, key: u128, value: u64) -> (before: Option<u64>)
        ensures
            before == (if entries(*old(self)).contains_key(key) {
                Some(entries(*old(self))[key])
            } else {
                None
            }),
            entries(*final(self)) == entries(*old(self)).insert(key, value),
    {
        self.inner.insert(key, value)
    }

    /// Calls `hashbrown::HashMap::remove`, which takes a key out of the table and returns the
    /// value that it had.
    #[verifier::external_body]
    pub(crate) fn remove(&mut self, key: u128) -> (before: Option<u64>)
        ensures
            before == (if entries(*old(self)).contains_key(key) {
                Some(entries(*old(self))[key])
            } else {
                None
            }),
            entries(*final(self)) == entries(*old(self)).remove(key),
    {
        self.inner.remove(&key)
    }

    /// Calls `hashbrown::HashMap::keys`, which visits each key that the table holds once, in an
    /// order that is not specified.
    #[verifier::external_body]
    pub(crate) fn keys(&self) -> (keys: Vec<u128>)
        ensures
            keys@.no_duplicates(),
            keys@.to_set() == entries(*self).dom(),
    {
        self.inner.keys().copied().collect()
    }

    /// Calls `hashbrown::HashMap::clear`, which takes everything out of the table.
    #[verifier::external_body]
    pub(crate) fn clear(&mut self)
        ensures
            (entries(*final(self)) == Map::<u128, u64>::empty()),
    {
        self.inner.clear()
    }
}

/// A [`hashbrown::HashSet`] of numbers.
#[verifier::external_body]
pub struct KeySet {
    inner: hashbrown::HashSet<u64>,
}

/// What a set holds.
pub uninterp spec fn members(set: KeySet) -> Set<u64>;

impl View for KeySet {
    type V = Set<u64>;

    open spec fn view(&self) -> Set<u64> {
        members(*self)
    }
}

impl KeySet {
    /// Calls `hashbrown::HashSet::new`, which makes a set that holds nothing.
    #[verifier::external_body]
    pub(crate) fn new() -> (set: Self)
        ensures
            members(set) == Set::<u64>::empty(),
    {
        KeySet { inner: hashbrown::HashSet::new() }
    }

    /// Calls `hashbrown::HashSet::insert`, which adds a number and tells whether it is new.
    #[verifier::external_body]
    pub(crate) fn insert(&mut self, value: u64) -> (added: bool)
        ensures
            added == !members(*old(self)).contains(value),
            members(*final(self)) == members(*old(self)).insert(value),
    {
        self.inner.insert(value)
    }
}

} // verus!
