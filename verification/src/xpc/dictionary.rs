//! The ordered dictionary of the object model.

use vstd::prelude::*;
use crate::xpc::model::{has_key, insert_entry, key_index, keys_unique, lemma_insert_entry, XPCValue};
use crate::xpc::object::XPCObject;

verus! {

/// A map from string keys to objects that keeps its entries in the order in
/// which their keys were first inserted.
///
/// The entries are held by an `indexmap::IndexMap`, which Verus does not
/// look into: what the map holds is named by [`dict_entries`], and the
/// private functions of this type state, without proof, what each map
/// operation does to it.
#[verifier::external_body]
#[derive(Debug)]
pub struct Dictionary {
    map: indexmap::IndexMap<String, XPCObject>,
}

/// The entries of a dictionary in their order, each key by its characters
/// and each value by its view.
pub uninterp spec fn dict_entries(d: Dictionary) -> Seq<(Seq<char>, XPCValue)>;

impl View for Dictionary {
    type V = Seq<(Seq<char>, XPCValue)>;

    open spec fn view(&self) -> Seq<(Seq<char>, XPCValue)> {
        dict_entries(*self)
    }
}

impl Dictionary {
    /// `IndexMap::new`: a map without entries.
    #[verifier::external_body]
    fn map_new() -> (d: Dictionary)
        ensures
            dict_entries(d) == Seq::<(Seq<char>, XPCValue)>::empty(),
    {
        Dictionary { map: indexmap::IndexMap::new() }
    }

    /// `IndexMap::len`: the number of entries.
    #[verifier::external_body]
    fn map_len(&self) -> (n: usize)
        ensures
            n == dict_entries(*self).len(),
    {
        self.map.len()
    }

    /// `IndexMap::insert`: a key that the map holds keeps its place and
    /// takes the new value, and the value it had is returned; a new key is
    /// added last.
    #[verifier::external_body]
    fn map_insert(&mut self, key: String, value: XPCObject) -> (previous: Option<XPCObject>)
        ensures
            dict_entries(*final(self)) == insert_entry(dict_entries(*old(self)), key@, value@),
            match previous {
                Some(p) => has_key(dict_entries(*old(self)), key@) && p@ == dict_entries(
                    *old(self),
                )[key_index(dict_entries(*old(self)), key@)].1,
                None => !has_key(dict_entries(*old(self)), key@),
            },
    {
        self.map.insert(key, value)
    }

    /// `IndexMap::get_index`: the entry at a position, for the positions
    /// below the length.
    #[verifier::external_body]
    fn map_get_index(&self, index: usize) -> (entry: Option<(&String, &XPCObject)>)
        ensures
            match entry {
                Some((k, v)) => {
                    &&& index < dict_entries(*self).len()
                    &&& k@ == dict_entries(*self)[index as int].0
                    &&& v@ == dict_entries(*self)[index as int].1
                },
                None => index >= dict_entries(*self).len(),
            },
    {
        self.map.get_index(index)
    }

    /// `IndexMap::get`: the value stored for a key, if the map holds the key.
    #[verifier::external_body]
    fn map_get(&self, key: &str) -> (value: Option<&XPCObject>)
        ensures
            match value {
                Some(v) => has_key(dict_entries(*self), key@) && v@ == dict_entries(
                    *self,
                )[key_index(dict_entries(*self), key@)].1,
                None => !has_key(dict_entries(*self), key@),
            },
    {
        self.map.get(key)
    }

    /// `IndexMap::clone`: a map with a copy of every entry, in the same
    /// order.
    #[verifier::external_body]
    fn map_clone(&self) -> (copy: Dictionary)
        ensures
            dict_entries(copy) == dict_entries(*self),
    {
        Dictionary { map: self.map.clone() }
    }

    /// A dictionary without entries.
    pub fn new() -> (d: Dictionary)
        ensures
            d@ == Seq::<(Seq<char>, XPCValue)>::empty(),
    {
        Self::map_new()
    }

    /// The number of entries.
    pub fn len(&self) -> (n: usize)
        ensures
            n == self@.len(),
    {
        self.map_len()
    }

    /// Whether the dictionary has no entry.
    pub fn is_empty(&self) -> (empty: bool)
        ensures
            empty == (self@.len() == 0),
    {
        self.len() == 0
    }

    /// Whether some entry has the key `key`.
    pub fn contains_key(&self, key: &str) -> (found: bool)
        ensures
            found == has_key(self@, key@),
    {
        self.map_get(key).is_some()
    }

    /// Gives `key` the value `value` and returns the value it had, if any.
    /// A key that is already present keeps its place in the order; a new
    /// key goes last.
    pub fn insert(&mut self, key: String, value: XPCObject) -> (previous: Option<XPCObject>)
        ensures
            final(self)@ == insert_entry(old(self)@, key@, value@),
            keys_unique(old(self)@) ==> keys_unique(final(self)@),
            has_key(final(self)@, key@),
            final(self)@.len() == if has_key(old(self)@, key@) {
                old(self)@.len()
            } else {
                old(self)@.len() + 1
            },
            match previous {
                Some(p) => has_key(old(self)@, key@) && p@ == old(self)@[key_index(
                    old(self)@,
                    key@,
                )].1,
                None => !has_key(old(self)@, key@),
            },
    {
        proof {
            lemma_insert_entry(self@, key@, value@);
        }
        self.map_insert(key, value)
    }

    /// The entry at position `index` in insertion order.
    pub fn get_index(&self, index: usize) -> (entry: Option<(&String, &XPCObject)>)
        ensures
            match entry {
                Some((k, v)) => {
                    &&& index < self@.len()
                    &&& k@ == self@[index as int].0
                    &&& v@ == self@[index as int].1
                },
                None => index >= self@.len(),
            },
    {
        self.map_get_index(index)
    }

    /// The entry at a position that the caller knows to be below the
    /// length.
    pub(crate) fn entry_at(&self, index: usize) -> (entry: (&String, &XPCObject))
        requires
            index < self@.len(),
        ensures
            entry.0@ == self@[index as int].0,
            entry.1@ == self@[index as int].1,
    {
        self.map_get_index(index).unwrap()
    }

    /// The value stored for `key`.
    pub fn get(&self, key: &str) -> (value: Option<&XPCObject>)
        ensures
            match value {
                Some(v) => exists|i: int|
                    0 <= i < self@.len() && (#[trigger] self@[i]).0 == key@ && self@[i].1 == v@,
                None => forall|i: int| 0 <= i < self@.len() ==> (#[trigger] self@[i]).0 != key@,
            },
    {
        let value = self.map_get(key);
        proof {
            if value.is_some() {
                let i = key_index(self@, key@);
                assert(self@[i].0 == key@);
            }
        }
        value
    }
}

impl Clone for Dictionary {
    /// A copy with the same entries in the same order.
    fn clone(&self) -> (copy: Dictionary)
        ensures
            copy@ == self@,
    {
        self.map_clone()
    }
}

} // verus!
