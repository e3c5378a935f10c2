//! Flag bits of a message header.

use vstd::prelude::*;
use vstd::std_specs::cmp::PartialEqSpecImpl;
use vstd::std_specs::convert::FromSpecImpl;
use vstd::std_specs::ops::BitOrSpecImpl;

verus! {

/// A 32-bit mask of message flags: one of the four well-known flags, or any
/// mask composed from them.
///
/// Two flags are equal when their bits are equal, however they were built.
#[derive(Clone, Copy, Debug)]
pub enum XPCFlag {
    AlwaysSet,
    DataFlag,
    WantingReply,
    InitHandshake,
    Custom(u32),
}

impl XPCFlag {
    /// The bits that the flag stands for on the wire.
    pub open spec fn bits(self) -> u32 {
        match self {
            XPCFlag::AlwaysSet => 0x0000_0001,
            XPCFlag::DataFlag => 0x0000_0100,
            XPCFlag::WantingReply => 0x0001_0000,
            XPCFlag::InitHandshake => 0x0040_0000,
            XPCFlag::Custom(inner) => inner,
        }
    }
}

impl From<XPCFlag> for u32 {
    /// Resolves a flag to its bits.
    fn from(value: XPCFlag) -> (bits: u32)
        ensures
            bits == value.bits(),
    {
        match value {
            XPCFlag::AlwaysSet => 0x0000_0001,
            XPCFlag::DataFlag => 0x0000_0100,
            XPCFlag::WantingReply => 0x0001_0000,
            XPCFlag::InitHandshake => 0x0040_0000,
            XPCFlag::Custom(inner) => inner,
        }
    }
}

impl FromSpecImpl<XPCFlag> for u32 {
    open spec fn obeys_from_spec() -> bool {
        true
    }

    open spec fn from_spec(value: XPCFlag) -> u32 {
        value.bits()
    }
}

impl core::ops::BitOr for XPCFlag {
    type Output = XPCFlag;

    /// The flag that carries the bits of both operands.
    fn bitor(self, rhs: XPCFlag) -> (both: XPCFlag)
        ensures
            both == XPCFlag::Custom(self.bits() | rhs.bits()),
    {
        XPCFlag::Custom(u32::from(self) | u32::from(rhs))
    }
}

impl BitOrSpecImpl for XPCFlag {
    open spec fn obeys_bitor_spec() -> bool {
        true
    }

    open spec fn bitor_req(self, rhs: XPCFlag) -> bool {
        true
    }

    open spec fn bitor_spec(self, rhs: XPCFlag) -> XPCFlag {
        XPCFlag::Custom(self.bits() | rhs.bits())
    }
}

impl core::ops::BitOrAssign for XPCFlag {
    /// Adds the bits of `rhs` to the flag.
    fn bitor_assign(&mut self, rhs: XPCFlag)
        ensures
            *final(self) == XPCFlag::Custom(old(self).bits() | rhs.bits()),
    {
        *self = XPCFlag::Custom(u32::from(*self) | u32::from(rhs));
    }
}

impl PartialEq for XPCFlag {
    /// Compares the resolved bits.
    fn eq(&self, other: &XPCFlag) -> (same: bool) {
        u32::from(*self) == u32::from(*other)
    }
}

impl PartialEqSpecImpl for XPCFlag {
    open spec fn obeys_eq_spec() -> bool {
        true
    }

    open spec fn eq_spec(&self, other: &XPCFlag) -> bool {
        self.bits() == other.bits()
    }
}

} // verus!
