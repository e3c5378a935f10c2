//! Client-side pieces of Apple's device-communication stack, verified with
//! Verus: the XPC object model with its wire codec and message framing, and
//! the messages of the pairing window.

pub mod pair_gui;
pub mod xpc;

pub use pair_gui::{reveal_in_file_browser, Command, GuiEvent};
pub use xpc::{Dictionary, PlistInteger, PlistValue, XPCError, XPCFlag, XPCMessage, XPCObject, XPCType};
