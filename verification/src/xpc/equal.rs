//! Equality of object trees: the same kinds and values in the same order.

use vstd::prelude::*;
use vstd::std_specs::cmp::PartialEqSpecImpl;
use crate::xpc::dictionary::Dictionary;
use crate::xpc::model::XPCValue;
use crate::xpc::object::{uuid_as_bytes, views, XPCObject};

verus! {

/// Whether two byte strings are the same.
fn bytes_equal(a: &[u8], b: &[u8]) -> (same: bool)
    ensures
        same == (a@ == b@),
{
    if a.len() != b.len() {
        return false;
    }
    let mut i: usize = 0;
    while i < a.len()
        invariant
            i <= a.len(),
            a.len() == b.len(),
            forall|j: int| 0 <= j < i ==> a@[j] == b@[j],
        decreases a.len() - i,
    {
        if a[i] != b[i] {
            return false;
        }
        i += 1;
    }
    assert(a@ =~= b@);
    true
}

/// Whether two arrays hold equal elements in the same order.
fn items_equal(a: &Vec<XPCObject>, b: &Vec<XPCObject>) -> (same: bool)
    ensures
        same == (views(a@) == views(b@)),
    decreases views(a@),
{
    if a.len() != b.len() {
        assert(views(a@).len() != views(b@).len());
        return false;
    }
    let mut i: usize = 0;
    while i < a.len()
        invariant
            i <= a.len(),
            a.len() == b.len(),
            forall|j: int| 0 <= j < i ==> (#[trigger] a[j])@ == b[j]@,
        decreases a.len() - i,
    {
        proof {
            assert(views(a@)[i as int] == a[i as int]@);
            assert(views(b@)[i as int] == b[i as int]@);
            assert(decreases_to!(views(a@) => views(a@)[i as int]));
        }
        if !a[i].same(&b[i]) {
            return false;
        }
        i += 1;
    }
    assert(views(a@) =~= views(b@));
    true
}

/// Whether two dictionaries hold equal entries in the same order.
fn entries_equal(a: &Dictionary, b: &Dictionary) -> (same: bool)
    ensures
        same == (a@ == b@),
    decreases a@,
{
    let n = a.len();
    if n != b.len() {
        return false;
    }
    let mut i: usize = 0;
    while i < n
        invariant
            i <= n,
            n == a@.len(),
            n == b@.len(),
            forall|j: int| 0 <= j < i ==> a@[j] == b@[j],
        decreases n - i,
    {
        let (ka, va) = a.entry_at(i);
        let (kb, vb) = b.entry_at(i);
        proof {
            assert(decreases_to!(a@ => a@[i as int]));
            assert(decreases_to!(a@[i as int] => a@[i as int].1));
        }
        if !(*ka == *kb) {
            assert(a@[i as int].0 != b@[i as int].0);
            return false;
        }
        if !va.same(vb) {
            assert(a@[i as int].1 != b@[i as int].1);
            return false;
        }
        i += 1;
    }
    assert(a@ =~= b@);
    true
}

impl XPCObject {
    /// Whether the two objects stand for the same tree: the same kinds
    /// with the same values, the elements of arrays and the entries of
    /// dictionaries in the same order.
    pub fn same(&self, other: &XPCObject) -> (same: bool)
        ensures
            same == (self@ == other@),
        decreases self@,
    {
        match (self, other) {
            (XPCObject::Bool(a), XPCObject::Bool(b)) => *a == *b,
            (XPCObject::Int64(a), XPCObject::Int64(b)) => *a == *b,
            (XPCObject::UInt64(a), XPCObject::UInt64(b)) => *a == *b,
            (XPCObject::String(a), XPCObject::String(b)) => *a == *b,
            (XPCObject::Data(a), XPCObject::Data(b)) => bytes_equal(a.as_slice(), b.as_slice()),
            (XPCObject::Uuid(a), XPCObject::Uuid(b)) => {
                let raw_a = uuid_as_bytes(a);
                let raw_b = uuid_as_bytes(b);
                bytes_equal(raw_a.as_slice(), raw_b.as_slice())
            },
            (XPCObject::Array(a), XPCObject::Array(b)) => {
                proof {
                    assert(decreases_to!(self@ => self@->Array_0));
                }
                items_equal(a, b)
            },
            (XPCObject::Dictionary(a), XPCObject::Dictionary(b)) => {
                proof {
                    assert(decreases_to!(self@ => self@->Dictionary_0));
                }
                entries_equal(a, b)
            },
            _ => false,
        }
    }
}

impl PartialEq for XPCObject {
    /// Compares the trees that the objects stand for.
    fn eq(&self, other: &XPCObject) -> (same: bool) {
        self.same(other)
    }
}

impl PartialEqSpecImpl for XPCObject {
    open spec fn obeys_eq_spec() -> bool {
        true
    }

    open spec fn eq_spec(&self, other: &XPCObject) -> bool {
        self@ == other@
    }
}

impl PartialEq for Dictionary {
    /// Compares the entries, in their order.
    fn eq(&self, other: &Dictionary) -> (same: bool) {
        entries_equal(self, other)
    }
}

impl PartialEqSpecImpl for Dictionary {
    open spec fn obeys_eq_spec() -> bool {
        true
    }

    open spec fn eq_spec(&self, other: &Dictionary) -> bool {
        self@ == other@
    }
}

} // verus!
