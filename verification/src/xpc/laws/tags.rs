//! An unknown type tag is reported.

use vstd::prelude::*;
use crate::xpc::error::XPCError;
use crate::xpc::layout::{OBJECT_MAGIC, OBJECT_VERSION};
use crate::xpc::model::XPCValue;
use crate::xpc::parse::{parse_object, parse_value};
use crate::xpc::tag::XPCType;
use crate::xpc::wire::u32_at;

verus! {

/// Unknown tag of a value: where the four bytes at `pos` are a tag that
/// names no kind, reading a value there fails with that tag.
pub proof fn lemma_unknown_tag_value(buf: Seq<u8>, pos: int)
    requires
        0 <= pos,
        pos + 4 <= buf.len(),
        XPCType::from_tag(u32_at(buf, pos)) is None,
    ensures
        parse_value(buf, pos) == Err::<(XPCValue, int), XPCError>(
            XPCError::InvalidFormat(u32_at(buf, pos)),
        ),
{
}

/// Unknown tag of an object tree: a buffer with a good header whose value
/// opens with a tag that names no kind is refused with that tag.
pub proof fn lemma_unknown_tag_fails(buf: Seq<u8>)
    requires
        buf.len() >= 12,
        u32_at(buf, 0) == OBJECT_MAGIC,
        u32_at(buf, 4) == OBJECT_VERSION,
        XPCType::from_tag(u32_at(buf, 8)) is None,
    ensures
        parse_object(buf) == Err::<XPCValue, XPCError>(XPCError::InvalidFormat(u32_at(buf, 8))),
{
}

/// The tags of the eight kinds are the only ones that name a kind, and
/// each names its own.
pub proof fn lemma_tag_registry(value: u32, kind: XPCType)
    ensures
        XPCType::from_tag(kind.spec_tag()) == Some(kind),
        XPCType::from_tag(value) == Some(kind) <==> kind.spec_tag() == value,
{
}

} // verus!
