use aletheia::gamedb::{backup_save_patterns, GameFiles};
use aletheia::platform::Platform;

fn files() -> GameFiles {
    GameFiles {
        windows: Some(vec!["{AppData}/G/*".to_owned()]),
        linux: Some(vec!["{XDGData}/G/*".to_owned(), "{Home}/.g/*".to_owned()]),
        mac: Some(vec!["{AppData}/G-mac/*".to_owned()]),
    }
}

#[test]
fn backup_patterns_per_platform() {
    assert_eq!(backup_save_patterns(&files(), Platform::Windows, false), vec!["{AppData}/G/*"]);
    assert_eq!(backup_save_patterns(&files(), Platform::Linux, false), vec!["{XDGData}/G/*", "{Home}/.g/*"]);
    assert_eq!(backup_save_patterns(&files(), Platform::Linux, true), vec!["{AppData}/G/*", "{XDGData}/G/*", "{Home}/.g/*"]);
    assert_eq!(backup_save_patterns(&files(), Platform::MacOs, false), vec!["{AppData}/G-mac/*"]);
    assert_eq!(backup_save_patterns(&files(), Platform::MacOs, true), vec!["{AppData}/G/*", "{AppData}/G-mac/*"]);
    let empty = GameFiles { windows: None, linux: None, mac: None };
    assert!(backup_save_patterns(&empty, Platform::Linux, true).is_empty());
}
