//! Messages between the pairing window and its worker.

use vstd::prelude::*;
use std::collections::HashMap;
use std::path::PathBuf;

verus! {

/// `std::path::PathBuf`, which is carried through and never looked into.
#[verifier::external_type_specification]
#[verifier::external_body]
pub struct ExPathBuf(PathBuf);

/// Commands sent from the window to the worker.
#[derive(Debug)]
pub enum Command {
    Refresh,
    Pair { udid: String, out_dir: PathBuf },
    GetDeviceInfo { udid: String },
    /// List a directory over AFC.
    AfcList { udid: String, path: String, container: Option<String>, documents: Option<String> },
}

/// Events sent from the worker back to the window.
#[derive(Debug)]
pub enum GuiEvent {
    Devices(Vec<(String, String)>),
    Status(String),
    DeviceInfo { udid: String, info: HashMap<String, String> },
    AfcListResponse(Vec<String>),
    AfcStatus(String),
}

} // verus!
