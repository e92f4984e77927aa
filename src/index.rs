//! A hash index from strings to positions, kept behind a small trusted surface.
use vstd::prelude::*;
use ahash::AHasher;
use core::hash::BuildHasherDefault;

verus! {

/// A hashed map from a string key to a position in a table.
#[verifier::external_body]
pub struct KeyIndex {
    map: hashbrown::HashMap<String, usize, BuildHasherDefault<AHasher>>,
}

/// What a `KeyIndex` holds: each key with its position.
pub uninterp spec fn index_contents(ix: KeyIndex) -> Map<Seq<char>, usize>;

impl KeyIndex {
    /// Relies on hashbrown::HashMap::with_hasher (with ahash's AHasher):
    /// a new map holds no entry.
    #[verifier::external_body]
    pub(crate) fn new() -> (r: KeyIndex)
        ensures
            index_contents(r) =~= Map::empty(),
    {
        KeyIndex { map: hashbrown::HashMap::with_hasher(BuildHasherDefault::<AHasher>::default()) }
    }

    /// Relies on hashbrown::HashMap::get: the value stored under `key`, if any.
    #[verifier::external_body]
    pub(crate) fn get(&self, key: &str) -> (r: Option<usize>)
        ensures
            r == index_contents(*self).get(key@),
    {
        self.map.get(key).copied()
    }

    /// Relies on hashbrown::HashMap::insert: `key` maps to `value` afterwards,
    /// every other key is left as it was.
    #[verifier::external_body]
    pub(crate) fn insert(&mut self, key: String, value: usize)
        ensures
            index_contents(*final(self)) == index_contents(*old(self)).insert(key@, value),
    {
        self.map.insert(key, value);
    }
}

} // verus!
