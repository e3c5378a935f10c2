//! The rule by which a paired device's directory is shown in the file
//! browser of the desktop.

use vstd::prelude::*;

verus! {

/// The desktop platforms, which differ in the program that opens a file
/// browser.
#[derive(Debug, Clone, Copy, PartialEq, Eq, Structural)]
pub enum Platform {
    Windows,
    MacOs,
    Other,
}

/// A program to start, and the one argument to start it with.
#[derive(Debug)]
pub struct Launch {
    pub program: String,
    pub argument: String,
}

/// The program that shows `path` on `platform`, and its argument. Windows
/// and macOS are handed the path itself. Elsewhere `xdg-open` is handed the
/// directory that holds the path, and nothing is started for a path without
/// one.
pub open spec fn reveal_plan(platform: Platform, path: &str, parent: Option<&str>) -> Option<
    (Seq<char>, Seq<char>),
> {
    match platform {
        Platform::Windows => Some(("explorer"@, path@)),
        Platform::MacOs => Some(("open"@, path@)),
        Platform::Other => match parent {
            Some(dir) => Some(("xdg-open"@, dir@)),
            None => None,
        },
    }
}

/// Decides how to reveal `path`, whose parent directory is `parent`, in the
/// file browser of `platform`. The caller starts the program.
pub fn reveal_in_file_browser(platform: Platform, path: &str, parent: Option<&str>) -> (launch:
    Option<Launch>)
    ensures
        match launch {
            Some(l) => reveal_plan(platform, path, parent) == Some((l.program@, l.argument@)),
            None => reveal_plan(platform, path, parent) is None,
        },
{
    match platform {
        Platform::Windows => Some(
            Launch { program: "explorer".to_owned(), argument: path.to_owned() },
        ),
        Platform::MacOs => Some(Launch { program: "open".to_owned(), argument: path.to_owned() }),
        Platform::Other => match parent {
            Some(dir) => Some(
                Launch { program: "xdg-open".to_owned(), argument: dir.to_owned() },
            ),
            None => None,
        },
    }
}

} // verus!
