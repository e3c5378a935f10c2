//! Looking into an object: the typed accessors, and copies.

use vstd::prelude::*;
use vstd::std_specs::convert::FromSpecImpl;
use crate::xpc::dictionary::Dictionary;
use crate::xpc::model::XPCValue;
use crate::xpc::object::{views, XPCObject};
use crate::xpc::text::{parse_signed, parse_unsigned, signed_of_text, unsigned_of_text};

verus! {

impl XPCObject {
    /// The dictionary, if the object is one.
    pub fn as_dictionary(&self) -> (dict: Option<&Dictionary>)
        ensures
            match dict {
                Some(d) => *self == XPCObject::Dictionary(*d),
                None => !(self is Dictionary),
            },
    {
        match self {
            XPCObject::Dictionary(dict) => Some(dict),
            _ => None,
        }
    }

    /// The elements, if the object is an array.
    pub fn as_array(&self) -> (array: Option<&Vec<XPCObject>>)
        ensures
            match array {
                Some(items) => *self == XPCObject::Array(*items),
                None => !(self is Array),
            },
    {
        match self {
            XPCObject::Array(array) => Some(array),
            _ => None,
        }
    }

    /// The text, if the object is a string.
    pub fn as_string(&self) -> (text: Option<&str>)
        ensures
            match text {
                Some(s) => self@ == XPCValue::String(s@),
                None => !(self is String),
            },
    {
        match self {
            XPCObject::String(s) => Some(s.as_str()),
            _ => None,
        }
    }

    /// The truth value, if the object is a boolean.
    pub fn as_bool(&self) -> (value: Option<&bool>)
        ensures
            match value {
                Some(b) => *self == XPCObject::Bool(*b),
                None => !(self is Bool),
            },
    {
        match self {
            XPCObject::Bool(b) => Some(b),
            _ => None,
        }
    }

    /// The object as a signed integer: the value of a signed integer, or
    /// the number that a string spells in decimal.
    pub fn as_signed_integer(&self) -> (value: Option<i64>)
        ensures
            value == match self@ {
                XPCValue::String(s) => signed_of_text(s),
                XPCValue::Int64(v) => Some(v),
                _ => None,
            },
    {
        match self {
            XPCObject::String(s) => parse_signed(s.as_str()).ok(),
            XPCObject::Int64(v) => Some(*v),
            _ => None,
        }
    }

    /// The object as an unsigned integer: the value of an unsigned integer,
    /// or the number that a string spells in decimal.
    pub fn as_unsigned_integer(&self) -> (value: Option<u64>)
        ensures
            value == match self@ {
                XPCValue::String(s) => unsigned_of_text(s),
                XPCValue::UInt64(v) => Some(v),
                _ => None,
            },
    {
        match self {
            XPCObject::String(s) => parse_unsigned(s.as_str()).ok(),
            XPCObject::UInt64(v) => Some(*v),
            _ => None,
        }
    }
}

impl From<Dictionary> for XPCObject {
    /// The object that is the dictionary.
    fn from(value: Dictionary) -> (object: XPCObject)
        ensures
            object == XPCObject::Dictionary(value),
    {
        XPCObject::Dictionary(value)
    }
}

impl FromSpecImpl<Dictionary> for XPCObject {
    open spec fn obeys_from_spec() -> bool {
        true
    }

    open spec fn from_spec(value: Dictionary) -> XPCObject {
        XPCObject::Dictionary(value)
    }
}

/// A copy of each element.
fn clone_items(items: &Vec<XPCObject>) -> (copy: Vec<XPCObject>)
    ensures
        views(copy@) == views(items@),
    decreases views(items@),
{
    let mut out: Vec<XPCObject> = Vec::new();
    let mut i: usize = 0;
    while i < items.len()
        invariant
            i <= items.len(),
            out.len() == i,
            forall|j: int| 0 <= j < i ==> (#[trigger] out[j])@ == items[j]@,
        decreases items.len() - i,
    {
        proof {
            assert(views(items@)[i as int] == items[i as int]@);
            assert(decreases_to!(views(items@) => views(items@)[i as int]));
        }
        let item = items[i].clone();
        out.push(item);
        i += 1;
    }
    assert(views(out@) =~= views(items@));
    out
}

impl Clone for XPCObject {
    /// A copy that stands for the same tree.
    fn clone(&self) -> (copy: XPCObject)
        ensures
            copy@ == self@,
        decreases self@,
    {
        match self {
            XPCObject::Bool(b) => XPCObject::Bool(*b),
            XPCObject::Dictionary(d) => XPCObject::Dictionary(d.clone()),
            XPCObject::Array(items) => {
                proof {
                    assert(decreases_to!(self@ => self@->Array_0));
                }
                XPCObject::Array(clone_items(items))
            },
            XPCObject::Int64(n) => XPCObject::Int64(*n),
            XPCObject::UInt64(n) => XPCObject::UInt64(*n),
            XPCObject::String(s) => XPCObject::String(s.clone()),
            XPCObject::Data(d) => XPCObject::Data(d.clone()),
            XPCObject::Uuid(u) => XPCObject::Uuid(*u),
        }
    }
}

} // verus!
