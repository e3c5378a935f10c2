//! The registry of type tags: the 32-bit word that opens every encoded
//! value and names its variant.

use vstd::prelude::*;
use vstd::std_specs::convert::TryFromSpecImpl;
use crate::xpc::error::XPCError;

verus! {

/// The eight kinds of value that the wire format knows.
#[derive(Clone, Copy, Debug, PartialEq, Eq, Structural)]
pub enum XPCType {
    Bool,
    Dictionary,
    Array,
    Int64,
    UInt64,
    String,
    Data,
    Uuid,
}

impl XPCType {
    /// The tag that stands for the kind on the wire.
    pub open spec fn spec_tag(self) -> u32 {
        match self {
            XPCType::Bool => 0x0000_2000,
            XPCType::Dictionary => 0x0000_f000,
            XPCType::Array => 0x0000_e000,
            XPCType::Int64 => 0x0000_3000,
            XPCType::UInt64 => 0x0000_4000,
            XPCType::String => 0x0000_9000,
            XPCType::Data => 0x0000_8000,
            XPCType::Uuid => 0x0000_a000,
        }
    }

    /// The kind that a tag stands for, if it stands for one.
    pub open spec fn from_tag(value: u32) -> Option<XPCType> {
        if value == 0x0000_2000 {
            Some(XPCType::Bool)
        } else if value == 0x0000_f000 {
            Some(XPCType::Dictionary)
        } else if value == 0x0000_e000 {
            Some(XPCType::Array)
        } else if value == 0x0000_3000 {
            Some(XPCType::Int64)
        } else if value == 0x0000_4000 {
            Some(XPCType::UInt64)
        } else if value == 0x0000_9000 {
            Some(XPCType::String)
        } else if value == 0x0000_8000 {
            Some(XPCType::Data)
        } else if value == 0x0000_a000 {
            Some(XPCType::Uuid)
        } else {
            None
        }
    }

    /// The tag that stands for the kind on the wire.
    #[verifier::when_used_as_spec(spec_tag)]
    pub fn tag(self) -> (value: u32)
        ensures
            value == self.spec_tag(),
    {
        match self {
            XPCType::Bool => 0x0000_2000,
            XPCType::Dictionary => 0x0000_f000,
            XPCType::Array => 0x0000_e000,
            XPCType::Int64 => 0x0000_3000,
            XPCType::UInt64 => 0x0000_4000,
            XPCType::String => 0x0000_9000,
            XPCType::Data => 0x0000_8000,
            XPCType::Uuid => 0x0000_a000,
        }
    }
}

impl TryFrom<u32> for XPCType {
    type Error = XPCError;

    /// Looks a tag up. An unknown tag is refused with
    /// [`XPCError::InvalidFormat`], which carries it.
    fn try_from(value: u32) -> (kind: Result<XPCType, XPCError>)
        ensures
            kind == match XPCType::from_tag(value) {
                Some(k) => Ok::<XPCType, XPCError>(k),
                None => Err::<XPCType, XPCError>(XPCError::InvalidFormat(value)),
            },
    {
        match value {
            0x0000_2000 => Ok(XPCType::Bool),
            0x0000_f000 => Ok(XPCType::Dictionary),
            0x0000_e000 => Ok(XPCType::Array),
            0x0000_3000 => Ok(XPCType::Int64),
            0x0000_4000 => Ok(XPCType::UInt64),
            0x0000_9000 => Ok(XPCType::String),
            0x0000_8000 => Ok(XPCType::Data),
            0x0000_a000 => Ok(XPCType::Uuid),
            _ => Err(XPCError::InvalidFormat(value)),
        }
    }
}

impl TryFromSpecImpl<u32> for XPCType {
    open spec fn obeys_try_from_spec() -> bool {
        true
    }

    open spec fn try_from_spec(value: u32) -> Result<XPCType, XPCError> {
        match XPCType::from_tag(value) {
            Some(k) => Ok(k),
            None => Err(XPCError::InvalidFormat(value)),
        }
    }
}

} // verus!
