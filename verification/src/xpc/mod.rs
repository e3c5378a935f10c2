//! The XPC object model and its wire codec, with the message framing.
//!
//! [`XPCObject`] is a tree of values. [`XPCObject::encode`] writes it in
//! the binary format and [`XPCObject::decode`] reads it back from bytes
//! that a peer sent and that are not trusted to be well formed.
//! [`XPCMessage`] wraps one tree, or none, for transmission as a unit.
//!
//! The contracts speak of the model in [`model`], of the layout in
//! [`layout`] and of the reading in [`parse`]; [`laws`] proves what holds
//! between them.

pub mod access;
pub mod decode;
pub mod dictionary;
pub mod encode;
pub mod equal;
pub mod error;
pub mod flag;
pub mod laws;
pub mod layout;
pub mod message;
pub mod model;
pub mod object;
pub mod parse;
pub mod plist;
pub mod tag;
pub mod text;
pub mod wire;

pub use dictionary::Dictionary;
pub use error::XPCError;
pub use flag::XPCFlag;
pub use message::XPCMessage;
pub use model::XPCValue;
pub use object::XPCObject;
pub use plist::{PlistInteger, PlistValue};
pub use tag::XPCType;
