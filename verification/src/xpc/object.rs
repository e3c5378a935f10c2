//! The object model: a closed set of value kinds that nest to any depth.

use vstd::prelude::*;
use crate::xpc::dictionary::Dictionary;
use crate::xpc::model::XPCValue;
use crate::xpc::text::hyphenated;

verus! {

/// `uuid::Uuid`, which Verus does not look into: what it holds is named by
/// [`uuid_bytes`].
#[verifier::external_type_specification]
#[verifier::external_body]
pub struct ExUuid(uuid::Uuid);

/// The sixteen bytes of a UUID, in the order in which it is written.
pub uninterp spec fn uuid_bytes(u: uuid::Uuid) -> Seq<u8>;

/// A value of the XPC type system: one of eight kinds, of which arrays and
/// dictionaries hold further values, to any depth.
#[derive(Debug)]
pub enum XPCObject {
    Bool(bool),
    /// String keys with their values, in insertion order.
    Dictionary(Dictionary),
    Array(Vec<XPCObject>),
    Int64(i64),
    UInt64(u64),
    String(String),
    /// An opaque blob of bytes.
    Data(Vec<u8>),
    Uuid(uuid::Uuid),
}

impl View for XPCObject {
    type V = XPCValue;

    open spec fn view(&self) -> XPCValue
        decreases self,
    {
        match self {
            XPCObject::Bool(b) => XPCValue::Bool(*b),
            XPCObject::Dictionary(d) => XPCValue::Dictionary(d@),
            XPCObject::Array(items) => XPCValue::Array(views(items@)),
            XPCObject::Int64(n) => XPCValue::Int64(*n),
            XPCObject::UInt64(n) => XPCValue::UInt64(*n),
            XPCObject::String(s) => XPCValue::String(s@),
            XPCObject::Data(d) => XPCValue::Data(d@),
            XPCObject::Uuid(u) => XPCValue::Uuid(uuid_bytes(*u)),
        }
    }
}

/// The views of the elements of an array, in their order.
pub open spec fn views(items: Seq<XPCObject>) -> Seq<XPCValue>
    decreases items,
{
    Seq::new(
        items.len(),
        |i: int|
            if 0 <= i < items.len() {
                items[i].view()
            } else {
                XPCValue::Bool(false)
            },
    )
}

/// The view of an array with one more element.
pub proof fn lemma_views_push(items: Seq<XPCObject>, last: XPCObject)
    ensures
        views(items.push(last)) == views(items).push(last@),
{
    assert(views(items.push(last)) =~= views(items).push(last@));
}

/// `Uuid::as_bytes`: the sixteen bytes of the UUID.
#[verifier::external_body]
pub(crate) fn uuid_as_bytes(u: &uuid::Uuid) -> (b: [u8; 16])
    ensures
        b@ == uuid_bytes(*u),
{
    *u.as_bytes()
}

/// `Builder::from_bytes` and `Builder::into_uuid`: the UUID made of the
/// sixteen bytes, with no bit of them changed.
#[verifier::external_body]
pub(crate) fn uuid_from_bytes(b: [u8; 16]) -> (u: uuid::Uuid)
    ensures
        uuid_bytes(u) == b@,
{
    uuid::Builder::from_bytes(b).into_uuid()
}

/// `Uuid::to_string`: the hyphenated lower-case text of the UUID, which is
/// what its `Display` writes.
#[verifier::external_body]
pub(crate) fn uuid_to_string(u: &uuid::Uuid) -> (text: String)
    ensures
        text@ == hyphenated(uuid_bytes(*u)),
{
    u.to_string()
}

} // verus!
