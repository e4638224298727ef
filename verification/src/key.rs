//! Keys: what a binding is made of.
use vstd::prelude::*;

verus! {

/// A physical key or modifier. Two keys are the same key when their
/// identifiers are the same text; which script object a key was read from
/// plays no part.
#[derive(Debug)]
pub struct Key {
    pub keyid: String,
}

impl View for Key {
    type V = Seq<char>;

    /// A key is its identifier.
    open spec fn view(&self) -> Seq<char> {
        self.keyid@
    }
}

impl Clone for Key {
    fn clone(&self) -> (key: Key)
        ensures
            key == *self,
    {
        Key { keyid: self.keyid.clone() }
    }
}

impl Key {
    /// The key with the given identifier.
    pub fn new(keyid: String) -> (key: Key)
        ensures
            key@ == keyid@,
    {
        Key { keyid }
    }

    /// The identifier.
    pub fn id(&self) -> (id: &str)
        ensures
            id@ == self@,
    {
        self.keyid.as_str()
    }

    /// Whether `self` and `other` are the same key.
    pub fn same_key(&self, other: &Key) -> (same: bool)
        ensures
            same == (self@ == other@),
    {
        self.keyid == other.keyid
    }
}

/// The identifiers of a run of keys, in order.
pub open spec fn key_ids(keys: Seq<Key>) -> Seq<Seq<char>> {
    keys.map_values(|key: Key| key@)
}

} // verus!
