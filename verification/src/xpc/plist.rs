//! Conversion between object trees and property lists, which earlier
//! stages of a session exchange before they switch to the XPC format.

use vstd::prelude::*;
use crate::xpc::dictionary::Dictionary;
use crate::xpc::error::XPCError;
use crate::xpc::model::{insert_entry, XPCValue};
use crate::xpc::object::{lemma_views_push, uuid_to_string, views, XPCObject};
use crate::xpc::text::hyphenated;

verus! {

/// An integer of a property list: any signed or unsigned 64-bit value.
#[derive(Debug, Clone, Copy)]
pub enum PlistInteger {
    Signed(i64),
    Unsigned(u64),
}

impl PlistInteger {
    /// The number that the integer stands for.
    pub open spec fn value(self) -> int {
        match self {
            PlistInteger::Signed(n) => n as int,
            PlistInteger::Unsigned(n) => n as int,
        }
    }
}

/// A value of a property list, as plain data.
///
/// Dates, reals and uids have no counterpart among XPC objects. They are
/// carried as what stands for them: a date as its text, a real as its bit
/// pattern, a uid as its number.
#[derive(Debug)]
pub enum PlistValue {
    Array(Vec<PlistValue>),
    Dictionary(Vec<(String, PlistValue)>),
    Boolean(bool),
    Data(Vec<u8>),
    Date(String),
    Real(u64),
    Integer(PlistInteger),
    String(String),
    Uid(u64),
}

/// What a [`PlistValue`] stands for.
pub enum PlistModel {
    Array(Seq<PlistModel>),
    Dictionary(Seq<(Seq<char>, PlistModel)>),
    Boolean(bool),
    Data(Seq<u8>),
    Date(Seq<char>),
    Real(u64),
    Integer(int),
    String(Seq<char>),
    Uid(u64),
}

impl View for PlistValue {
    type V = PlistModel;

    open spec fn view(&self) -> PlistModel
        decreases self,
    {
        match self {
            PlistValue::Array(items) => PlistModel::Array(plist_views(items@)),
            PlistValue::Dictionary(entries) => PlistModel::Dictionary(plist_entry_views(entries@)),
            PlistValue::Boolean(b) => PlistModel::Boolean(*b),
            PlistValue::Data(d) => PlistModel::Data(d@),
            PlistValue::Date(text) => PlistModel::Date(text@),
            PlistValue::Real(bits) => PlistModel::Real(*bits),
            PlistValue::Integer(n) => PlistModel::Integer(n.value()),
            PlistValue::String(s) => PlistModel::String(s@),
            PlistValue::Uid(n) => PlistModel::Uid(*n),
        }
    }
}

/// The views of the elements of a property-list array.
pub open spec fn plist_views(items: Seq<PlistValue>) -> Seq<PlistModel>
    decreases items,
{
    Seq::new(
        items.len(),
        |i: int|
            if 0 <= i < items.len() {
                items[i].view()
            } else {
                PlistModel::Boolean(false)
            },
    )
}

/// The views of the entries of a property-list dictionary.
pub open spec fn plist_entry_views(entries: Seq<(String, PlistValue)>) -> Seq<
    (Seq<char>, PlistModel),
>
    decreases entries,
{
    Seq::new(
        entries.len(),
        |i: int|
            if 0 <= i < entries.len() {
                (entries[i].0@, entries[i].1.view())
            } else {
                (Seq::empty(), PlistModel::Boolean(false))
            },
    )
}

/// The object tree that a property list turns into.
///
/// Arrays and dictionaries are converted element by element, and a
/// dictionary is filled in the order of its entries. An integer must fit a
/// signed 64-bit value. A date, a real or a uid makes the whole conversion
/// fail; so does the first element that fails.
pub open spec fn xpc_of_plist(p: PlistModel) -> Result<XPCValue, XPCError>
    decreases p,
{
    match p {
        PlistModel::Array(items) => match xpc_of_plist_items(items, Seq::empty()) {
            Ok(values) => Ok(XPCValue::Array(values)),
            Err(e) => Err(e),
        },
        PlistModel::Dictionary(entries) => match xpc_of_plist_entries(entries, Seq::empty()) {
            Ok(converted) => Ok(XPCValue::Dictionary(converted)),
            Err(e) => Err(e),
        },
        PlistModel::Boolean(b) => Ok(XPCValue::Bool(b)),
        PlistModel::Data(d) => Ok(XPCValue::Data(d)),
        PlistModel::Date(_) => Err(XPCError::UnsupportedPlist),
        PlistModel::Real(_) => Err(XPCError::UnsupportedPlist),
        PlistModel::Integer(n) => if i64::MIN <= n <= i64::MAX {
            Ok(XPCValue::Int64(n as i64))
        } else {
            Err(XPCError::IntegerOutOfRange)
        },
        PlistModel::String(s) => Ok(XPCValue::String(s)),
        PlistModel::Uid(_) => Err(XPCError::UnsupportedPlist),
    }
}

/// The elements of a property-list array, converted in their order and
/// added to `acc`.
pub open spec fn xpc_of_plist_items(items: Seq<PlistModel>, acc: Seq<XPCValue>) -> Result<
    Seq<XPCValue>,
    XPCError,
>
    decreases items,
{
    if items.len() == 0 {
        Ok(acc)
    } else {
        match xpc_of_plist(items[0]) {
            Ok(v) => xpc_of_plist_items(items.drop_first(), acc.push(v)),
            Err(e) => Err(e),
        }
    }
}

/// The entries of a property-list dictionary, converted in their order
/// and inserted into `acc`.
pub open spec fn xpc_of_plist_entries(
    entries: Seq<(Seq<char>, PlistModel)>,
    acc: Seq<(Seq<char>, XPCValue)>,
) -> Result<Seq<(Seq<char>, XPCValue)>, XPCError>
    decreases entries,
{
    if entries.len() == 0 {
        Ok(acc)
    } else {
        match xpc_of_plist(entries[0].1) {
            Ok(v) => xpc_of_plist_entries(
                entries.drop_first(),
                insert_entry(acc, entries[0].0, v),
            ),
            Err(e) => Err(e),
        }
    }
}

/// The property list that an object tree turns into. Both kinds of integer
/// become the one integer of property lists, and a UUID becomes a string
/// with its canonical text.
pub open spec fn plist_of_xpc(v: XPCValue) -> PlistModel
    decreases v,
{
    match v {
        XPCValue::Bool(b) => PlistModel::Boolean(b),
        XPCValue::Uuid(bytes) => PlistModel::String(hyphenated(bytes)),
        XPCValue::UInt64(n) => PlistModel::Integer(n as int),
        XPCValue::Int64(n) => PlistModel::Integer(n as int),
        XPCValue::String(s) => PlistModel::String(s),
        XPCValue::Data(d) => PlistModel::Data(d),
        XPCValue::Array(items) => PlistModel::Array(
            Seq::new(
                items.len(),
                |i: int|
                    if 0 <= i < items.len() {
                        plist_of_xpc(items[i])
                    } else {
                        PlistModel::Boolean(false)
                    },
            ),
        ),
        XPCValue::Dictionary(entries) => PlistModel::Dictionary(
            Seq::new(
                entries.len(),
                |i: int|
                    if 0 <= i < entries.len() {
                        (entries[i].0, plist_of_xpc(entries[i].1))
                    } else {
                        (Seq::empty(), PlistModel::Boolean(false))
                    },
            ),
        ),
    }
}

/// Converts the elements of a property-list array.
fn items_from_plist(items: &Vec<PlistValue>) -> (converted: Result<Vec<XPCObject>, XPCError>)
    ensures
        match converted {
            Ok(v) => xpc_of_plist_items(plist_views(items@), Seq::empty()) == Ok::<
                Seq<XPCValue>,
                XPCError,
            >(views(v@)),
            Err(e) => xpc_of_plist_items(plist_views(items@), Seq::empty()) == Err::<
                Seq<XPCValue>,
                XPCError,
            >(e),
        },
    decreases items,
{
    let mut out: Vec<XPCObject> = Vec::new();
    let mut i: usize = 0;
    let ghost all = plist_views(items@);
    assert(all.skip(0) =~= all);
    assert(views(out@) =~= Seq::<XPCValue>::empty());
    while i < items.len()
        invariant
            i <= items.len(),
            all == plist_views(items@),
            xpc_of_plist_items(all, Seq::empty()) == xpc_of_plist_items(
                all.skip(i as int),
                views(out@),
            ),
        decreases items.len() - i,
    {
        proof {
            assert(all.skip(i as int)[0] == items[i as int]@);
            assert(all.skip(i as int).drop_first() =~= all.skip(i + 1));
        }
        match XPCObject::from_plist(&items[i]) {
            Ok(obj) => {
                proof {
                    lemma_views_push(out@, obj);
                }
                out.push(obj);
            },
            Err(e) => {
                return Err(e);
            },
        }
        i += 1;
    }
    Ok(out)
}

/// Converts the entries of a property-list dictionary.
fn entries_from_plist(entries: &Vec<(String, PlistValue)>) -> (converted: Result<
    Dictionary,
    XPCError,
>)
    ensures
        match converted {
            Ok(d) => xpc_of_plist_entries(plist_entry_views(entries@), Seq::empty()) == Ok::<
                Seq<(Seq<char>, XPCValue)>,
                XPCError,
            >(d@),
            Err(e) => xpc_of_plist_entries(plist_entry_views(entries@), Seq::empty()) == Err::<
                Seq<(Seq<char>, XPCValue)>,
                XPCError,
            >(e),
        },
    decreases entries,
{
    let mut dict = Dictionary::new();
    let mut i: usize = 0;
    let ghost all = plist_entry_views(entries@);
    assert(all.skip(0) =~= all);
    while i < entries.len()
        invariant
            i <= entries.len(),
            all == plist_entry_views(entries@),
            xpc_of_plist_entries(all, Seq::empty()) == xpc_of_plist_entries(
                all.skip(i as int),
                dict@,
            ),
        decreases entries.len() - i,
    {
        proof {
            assert(all.skip(i as int)[0] == (entries[i as int].0@, entries[i as int].1@));
            assert(all.skip(i as int).drop_first() =~= all.skip(i + 1));
            assert(decreases_to!(entries => entries[i as int]));
            assert(decreases_to!(entries[i as int] => entries[i as int].1));
        }
        let entry = &entries[i];
        match XPCObject::from_plist(&entry.1) {
            Ok(obj) => {
                dict.insert(entry.0.clone(), obj);
            },
            Err(e) => {
                return Err(e);
            },
        }
        i += 1;
    }
    Ok(dict)
}

/// Converts the elements of an array of objects.
fn items_to_plist(items: &Vec<XPCObject>) -> (converted: Vec<PlistValue>)
    ensures
        PlistModel::Array(plist_views(converted@)) == plist_of_xpc(XPCValue::Array(views(items@))),
    decreases views(items@),
{
    let mut out: Vec<PlistValue> = Vec::new();
    let mut i: usize = 0;
    while i < items.len()
        invariant
            i <= items.len(),
            out.len() == i,
            forall|j: int| 0 <= j < i ==> (#[trigger] out[j])@ == plist_of_xpc(items[j]@),
        decreases items.len() - i,
    {
        proof {
            assert(views(items@)[i as int] == items[i as int]@);
            assert(decreases_to!(views(items@) => views(items@)[i as int]));
        }
        let converted = items[i].to_plist();
        out.push(converted);
        i += 1;
    }
    proof {
        assert(plist_views(out@) =~= plist_of_xpc(XPCValue::Array(views(items@)))->Array_0);
    }
    out
}

/// Converts the entries of a dictionary of objects.
fn entries_to_plist(dict: &Dictionary) -> (converted: Vec<(String, PlistValue)>)
    ensures
        PlistModel::Dictionary(plist_entry_views(converted@)) == plist_of_xpc(
            XPCValue::Dictionary(dict@),
        ),
    decreases dict@,
{
    let mut out: Vec<(String, PlistValue)> = Vec::new();
    let n = dict.len();
    let mut i: usize = 0;
    while i < n
        invariant
            i <= n,
            n == dict@.len(),
            out.len() == i,
            forall|j: int|
                0 <= j < i ==> (#[trigger] out[j]).0@ == dict@[j].0 && out[j].1@ == plist_of_xpc(
                    dict@[j].1,
                ),
        decreases n - i,
    {
        let (k, v) = dict.entry_at(i);
        proof {
            assert(decreases_to!(dict@ => dict@[i as int]));
            assert(decreases_to!(dict@[i as int] => dict@[i as int].1));
        }
        let converted = v.to_plist();
        out.push((k.clone(), converted));
        i += 1;
    }
    proof {
        assert(plist_entry_views(out@) =~= plist_of_xpc(XPCValue::Dictionary(dict@))->Dictionary_0);
    }
    out
}

impl XPCObject {
    /// Converts a property list into an object tree.
    ///
    /// Returns exactly what [`xpc_of_plist`] says: the tree, or
    /// [`XPCError::UnsupportedPlist`] for the first date, real or uid, or
    /// [`XPCError::IntegerOutOfRange`] for the first integer above the
    /// signed range.
    pub fn from_plist(value: &PlistValue) -> (object: Result<XPCObject, XPCError>)
        ensures
            match object {
                Ok(obj) => xpc_of_plist(value@) == Ok::<XPCValue, XPCError>(obj@),
                Err(e) => xpc_of_plist(value@) == Err::<XPCValue, XPCError>(e),
            },
        decreases value,
    {
        match value {
            PlistValue::Array(v) => match items_from_plist(v) {
                Ok(items) => Ok(XPCObject::Array(items)),
                Err(e) => Err(e),
            },
            PlistValue::Dictionary(v) => match entries_from_plist(v) {
                Ok(dict) => Ok(XPCObject::Dictionary(dict)),
                Err(e) => Err(e),
            },
            PlistValue::Boolean(v) => Ok(XPCObject::Bool(*v)),
            PlistValue::Data(v) => Ok(XPCObject::Data(v.clone())),
            PlistValue::Date(_) => Err(XPCError::UnsupportedPlist),
            PlistValue::Real(_) => Err(XPCError::UnsupportedPlist),
            PlistValue::Integer(v) => match v {
                PlistInteger::Signed(n) => Ok(XPCObject::Int64(*n)),
                PlistInteger::Unsigned(n) => if *n <= i64::MAX as u64 {
                    Ok(XPCObject::Int64(*n as i64))
                } else {
                    Err(XPCError::IntegerOutOfRange)
                },
            },
            PlistValue::String(v) => Ok(XPCObject::String(v.clone())),
            PlistValue::Uid(_) => Err(XPCError::UnsupportedPlist),
        }
    }

    /// Converts the object tree into a property list.
    pub fn to_plist(&self) -> (value: PlistValue)
        ensures
            value@ == plist_of_xpc(self@),
        decreases self@,
    {
        match self {
            XPCObject::Bool(v) => PlistValue::Boolean(*v),
            XPCObject::Uuid(uuid) => PlistValue::String(uuid_to_string(uuid)),
            XPCObject::UInt64(v) => PlistValue::Integer(PlistInteger::Unsigned(*v)),
            XPCObject::Int64(v) => PlistValue::Integer(PlistInteger::Signed(*v)),
            XPCObject::String(v) => PlistValue::String(v.clone()),
            XPCObject::Data(v) => PlistValue::Data(v.clone()),
            XPCObject::Array(v) => {
                proof {
                    assert(decreases_to!(self@ => self@->Array_0));
                }
                PlistValue::Array(items_to_plist(v))
            },
            XPCObject::Dictionary(v) => {
                proof {
                    assert(decreases_to!(self@ => self@->Dictionary_0));
                }
                PlistValue::Dictionary(entries_to_plist(v))
            },
        }
    }
}

} // verus!
