//! Errors of the XPC codec.

use vstd::prelude::*;

verus! {

/// Why a value could not be encoded, decoded or converted.
///
/// Every failure is handed to the immediate caller; nothing is retried and
/// no partly built value survives a failure.
#[derive(Debug, Clone, Copy, PartialEq, Eq, Structural)]
pub enum XPCError {
    /// The buffer ends before a field that has to be read.
    Truncated,
    /// The first header word is not the expected magic number.
    BadMagic,
    /// The object-stream header names a format version other than 5.
    BadVersion,
    /// The type tag, carried here, is none of the eight known tags.
    InvalidFormat(u32),
    /// A string payload does not end in its single NUL terminator.
    BadTerminator,
    /// A string payload is not valid UTF-8.
    InvalidUtf8,
    /// A message declares a body longer than what follows its header.
    BodyLength,
    /// The object breaks an invariant of the wire format: a length or count
    /// that does not fit its 32-bit field, or a dictionary key with a NUL.
    NotEncodable,
    /// A property-list date, real or uid, which has no XPC counterpart.
    UnsupportedPlist,
    /// A property-list integer that does not fit a signed 64-bit value.
    IntegerOutOfRange,
}

impl XPCError {
    /// A short description of the failure, for reports to a user.
    pub fn describe(&self) -> (text: &'static str)
        ensures
            text@ == Self::description(*self),
    {
        match self {
            XPCError::Truncated => "buffer ends before the data it declares",
            XPCError::BadMagic => "invalid magic number",
            XPCError::BadVersion => "unexpected format version",
            XPCError::InvalidFormat(_) => "unknown XPC type tag",
            XPCError::BadTerminator => "string is not terminated by a single NUL",
            XPCError::InvalidUtf8 => "string is not valid UTF-8",
            XPCError::BodyLength => "declared body length exceeds the buffer",
            XPCError::NotEncodable => "object cannot be represented on the wire",
            XPCError::UnsupportedPlist => "property-list value has no XPC counterpart",
            XPCError::IntegerOutOfRange => "integer does not fit a signed 64-bit value",
        }
    }

    /// The text that [`XPCError::describe`] returns for each failure.
    pub open spec fn description(e: XPCError) -> Seq<char> {
        match e {
            XPCError::Truncated => "buffer ends before the data it declares"@,
            XPCError::BadMagic => "invalid magic number"@,
            XPCError::BadVersion => "unexpected format version"@,
            XPCError::InvalidFormat(_) => "unknown XPC type tag"@,
            XPCError::BadTerminator => "string is not terminated by a single NUL"@,
            XPCError::InvalidUtf8 => "string is not valid UTF-8"@,
            XPCError::BodyLength => "declared body length exceeds the buffer"@,
            XPCError::NotEncodable => "object cannot be represented on the wire"@,
            XPCError::UnsupportedPlist => "property-list value has no XPC counterpart"@,
            XPCError::IntegerOutOfRange => "integer does not fit a signed 64-bit value"@,
        }
    }
}

} // verus!
