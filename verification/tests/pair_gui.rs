//! The messages of the pairing window and the reveal rule.

use idevice::pair_gui::{Launch, Platform};
use idevice::{reveal_in_file_browser, Command, GuiEvent};

fn parts(launch: Option<Launch>) -> Option<(String, String)> {
    launch.map(|l| (l.program, l.argument))
}

#[test]
fn windows_and_macos_open_the_path_itself() {
    assert_eq!(
        parts(reveal_in_file_browser(Platform::Windows, "C:\\pairings\\device", Some("C:\\pairings"))),
        Some(("explorer".to_string(), "C:\\pairings\\device".to_string()))
    );
    assert_eq!(
        parts(reveal_in_file_browser(Platform::MacOs, "/tmp/pairings", None)),
        Some(("open".to_string(), "/tmp/pairings".to_string()))
    );
}

#[test]
fn elsewhere_the_parent_directory_is_opened() {
    assert_eq!(
        parts(reveal_in_file_browser(Platform::Other, "/home/me/pairings", Some("/home/me"))),
        Some(("xdg-open".to_string(), "/home/me".to_string()))
    );
    assert_eq!(parts(reveal_in_file_browser(Platform::Other, "/", None)), None);
}

#[test]
fn commands_and_events_carry_their_fields() {
    let command = Command::AfcList {
        udid: "0001".to_string(),
        path: "/".to_string(),
        container: None,
        documents: Some("com.example.app".to_string()),
    };
    match command {
        Command::AfcList { udid, path, container, documents } => {
            assert_eq!(udid, "0001");
            assert_eq!(path, "/");
            assert_eq!(container, None);
            assert_eq!(documents.as_deref(), Some("com.example.app"));
        }
        other => panic!("unexpected {:?}", other),
    }
    let pair = Command::Pair { udid: "0002".to_string(), out_dir: std::path::PathBuf::from("out") };
    assert!(matches!(pair, Command::Pair { ref udid, .. } if udid == "0002"));
    assert!(matches!(Command::Refresh, Command::Refresh));
    let event = GuiEvent::Devices(vec![("0001".to_string(), "Phone (iPhone12,1)".to_string())]);
    assert!(matches!(event, GuiEvent::Devices(ref list) if list.len() == 1));
    let mut info = std::collections::HashMap::new();
    info.insert("DeviceName".to_string(), "Phone".to_string());
    let event = GuiEvent::DeviceInfo { udid: "0001".to_string(), info };
    assert!(matches!(event, GuiEvent::DeviceInfo { ref info, .. } if info["DeviceName"] == "Phone"));
}
