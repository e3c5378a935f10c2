//! The pairing window: the messages between the window and its worker,
//! and the rule for revealing a directory in the file browser.

pub mod types;
pub mod util;

pub use types::{Command, GuiEvent};
pub use util::{reveal_in_file_browser, Launch, Platform};
