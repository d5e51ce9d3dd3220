use aletheia::backups::Backup;
use aletheia::gamedb::{GameDbEntry, GameFiles};
use aletheia::platform::Platform;
use aletheia::restore::{matches_known_pattern, restore_archive, restore_game, ArchiveEntry, Error};
use aletheia::RestoreError;

fn requiem() -> GameDbEntry {
    GameDbEntry {
        files: GameFiles {
            windows: Some(vec!["{SteamUserData}/3764200/remote/win64_save/*".to_owned()]),
            linux: None,
            mac: None,
        },
    }
}

fn mobw() -> GameDbEntry {
    GameDbEntry {
        files: GameFiles {
            windows: Some(vec!["{Documents}/KoeiTecmo/FATAL FRAME MOBW/SAVEDATA/*".to_owned()]),
            linux: None,
            mac: None,
        },
    }
}

#[test]
fn reject_path_traversal() {
    assert!(!matches_known_pattern("{SteamUserData}/../", &requiem(), Platform::Linux));
}

#[test]
fn reject_arbitrary_file_write() {
    assert!(!matches_known_pattern("C:/Windows/System32/config/SAM", &requiem(), Platform::Linux));
}

#[test]
fn accept_declared_save_path() {
    assert!(matches_known_pattern("{SteamUserData}/3764200/remote/win64_save/save1.sav", &requiem(), Platform::Linux));
}

#[test]
fn reject_mismatched_game_and_path() {
    assert!(!matches_known_pattern("{Documents}/KoeiTecmo/FATAL FRAME MOBW/SAVEDATA/slot1.dat", &requiem(), Platform::Linux));
    assert!(!matches_known_pattern("{SteamUserData}/3764200/remote/win64_save/save1.sav", &mobw(), Platform::Linux));
}

#[test]
fn traversal_inside_matching_pattern_is_refused() {
    // `*` would match the rest, but the `..` component is refused first.
    assert!(!matches_known_pattern("{SteamUserData}/3764200/remote/win64_save/../../../x", &requiem(), Platform::Linux));
    assert!(!matches_known_pattern("/{SteamUserData}/3764200/remote/win64_save/a", &requiem(), Platform::Linux));
}

#[test]
fn windows_drive_prefix_is_refused() {
    let entry = GameDbEntry {
        files: GameFiles { windows: Some(vec!["*".to_owned()]), linux: None, mac: None },
    };
    assert!(!matches_known_pattern("C:/Windows/System32/config/SAM", &entry, Platform::Windows));
    assert!(matches_known_pattern("C:/Windows/System32/config/SAM", &entry, Platform::Linux));
    assert!(!matches_known_pattern("a\\..\\b", &entry, Platform::Windows));
}

#[test]
fn platform_patterns_apply_only_on_their_platform() {
    let entry = GameDbEntry {
        files: GameFiles {
            windows: None,
            linux: Some(vec!["{XDGConfig}/Game/save/*".to_owned()]),
            mac: Some(vec!["{AppData}/Game/*".to_owned()]),
        },
    };
    assert!(matches_known_pattern("{XDGConfig}/Game/save/a.sav", &entry, Platform::Linux));
    assert!(!matches_known_pattern("{XDGConfig}/Game/save/a.sav", &entry, Platform::Windows));
    assert!(!matches_known_pattern("{XDGConfig}/Game/save/a.sav", &entry, Platform::MacOs));
    assert!(matches_known_pattern("{AppData}/Game/x", &entry, Platform::MacOs));
    assert!(!matches_known_pattern("{AppData}/Game/x", &entry, Platform::Linux));
}

#[test]
fn invalid_pattern_matches_nothing() {
    let entry = GameDbEntry {
        files: GameFiles { windows: Some(vec!["a/***".to_owned(), "b/[".to_owned()]), linux: None, mac: None },
    };
    assert!(!matches_known_pattern("a/x", &entry, Platform::Linux));
    assert!(!matches_known_pattern("b/[", &entry, Platform::Linux));
}

#[test]
fn restore_archive_decides_per_entry() {
    let entries = vec![
        ArchiveEntry { shrunk_path: "{SteamUserData}/3764200/remote/win64_save/save1.sav".to_owned(), checksum: vec![1] },
        ArchiveEntry { shrunk_path: "{SteamUserData}/../evil".to_owned(), checksum: vec![2] },
        ArchiveEntry { shrunk_path: "{Documents}/other".to_owned(), checksum: vec![3] },
    ];
    assert_eq!(restore_archive(&entries, &requiem(), Platform::Linux), vec![true, false, false]);
    assert_eq!(restore_archive(&vec![], &requiem(), Platform::Linux), Vec::<bool>::new());
}

#[test]
fn restore_game_opens_newest() {
    let backups = vec![
        Backup { path: "g/200.aletheia".to_owned(), created: 200, size: 5 },
        Backup { path: "g/100.aletheia".to_owned(), created: 100, size: 5 },
    ];
    match restore_game(&backups) {
        Ok(b) => assert_eq!(b.path, "g/200.aletheia"),
        Err(_) => panic!("expected a backup"),
    }
    assert!(matches!(restore_game(&vec![]), Err(Error::NoBackupsFound)));
}

#[test]
fn restore_error_messages() {
    assert_eq!(RestoreError::NoBackupsFound.message(), "No backups found");
    assert_eq!(Error::Archive("bad header".to_owned()).message(), "Archive error: bad header");
}
