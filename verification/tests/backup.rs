use aletheia::backup::{backup_changed, backup_game, BackupAction, BackupEvent, FoundFile, bytes_equal, should_back_up_file, Error};
use aletheia::backups::Backup;
use aletheia::gamedb::{GameDbEntry, GameFiles};
use aletheia::platform::Platform;
use aletheia::restore::ArchiveEntry;

fn file(path: &str, sum: &[u8]) -> ArchiveEntry {
    ArchiveEntry { shrunk_path: path.to_owned(), checksum: sum.to_vec() }
}

#[test]
fn ignored_files() {
    assert!(!should_back_up_file("steam_autocloud.vdf", Platform::Linux));
    assert!(!should_back_up_file("steam_autocloud.vdf", Platform::Windows));
    assert!(!should_back_up_file(".DS_Store", Platform::MacOs));
    assert!(should_back_up_file(".DS_Store", Platform::Linux));
    assert!(should_back_up_file("save1.sav", Platform::MacOs));
}

#[test]
fn change_detection() {
    let previous = Some(vec![file("a", &[1, 2]), file("b", &[3])]);
    assert!(!backup_changed(&previous, &vec![file("a", &[1, 2]), file("b", &[3])]));
    assert!(!backup_changed(&previous, &vec![file("b", &[3])]));
    assert!(backup_changed(&previous, &vec![file("a", &[1, 2]), file("b", &[4])]));
    assert!(backup_changed(&previous, &vec![file("c", &[1])]));
    assert!(backup_changed(&None, &vec![file("a", &[1, 2])]));
    assert!(!backup_changed(&None, &vec![]));
}

#[test]
fn change_detection_uses_first_recorded_entry() {
    let previous = Some(vec![file("a", &[1]), file("a", &[2])]);
    assert!(!backup_changed(&previous, &vec![file("a", &[1])]));
    assert!(backup_changed(&previous, &vec![file("a", &[2])]));
}

#[test]
fn byte_equality() {
    assert!(bytes_equal(&vec![1, 2, 3], &vec![1, 2, 3]));
    assert!(!bytes_equal(&vec![1, 2, 3], &vec![1, 2]));
    assert!(!bytes_equal(&vec![1, 2, 3], &vec![1, 2, 4]));
    assert!(bytes_equal(&vec![], &vec![]));
}

#[test]
fn backup_error_message() {
    assert_eq!(Error::DirectoryCreation("permission denied".to_owned()).message(), "Failed to create backup directory: permission denied");
}

fn found(path: &str, name: &str, is_dir: bool, sum: &[u8]) -> FoundFile {
    FoundFile { shrunk_path: path.to_owned(), file_name: name.to_owned(), is_dir, checksum: sum.to_vec() }
}

fn entry() -> GameDbEntry {
    GameDbEntry {
        files: GameFiles {
            windows: Some(vec!["{AppData}/G/*".to_owned()]),
            linux: Some(vec!["{XDGData}/G/*".to_owned()]),
            mac: None,
        },
    }
}

fn entry_views(entries: &[ArchiveEntry]) -> Vec<(String, Vec<u8>)> {
    entries.iter().map(|e| (e.shrunk_path.clone(), e.checksum.clone())).collect()
}

#[test]
fn backup_searches_the_platform_patterns() {
    match backup_game(&entry(), Platform::Linux, false, 3, BackupEvent::Start) {
        BackupAction::Search { patterns } => assert_eq!(patterns, vec!["{XDGData}/G/*"]),
        _ => panic!("expected a search"),
    }
    match backup_game(&entry(), Platform::Linux, true, 3, BackupEvent::Start) {
        BackupAction::Search { patterns } => assert_eq!(patterns, vec!["{AppData}/G/*", "{XDGData}/G/*"]),
        _ => panic!("expected a search"),
    }
}

#[test]
fn backup_archives_kept_files_under_time_name() {
    let event = BackupEvent::FilesFound {
        previous: None,
        found: vec![
            found("{XDGData}/G/a.sav", "a.sav", false, &[1]),
            found("{XDGData}/G/sub", "sub", true, &[]),
            found("{XDGData}/G/steam_autocloud.vdf", "steam_autocloud.vdf", false, &[2]),
            found("{XDGData}/G/b.sav", "b.sav", false, &[3]),
        ],
        now_secs: 1700000000,
    };
    match backup_game(&entry(), Platform::Linux, false, 3, event) {
        BackupAction::WriteArchive { file_name, entries } => {
            assert_eq!(file_name, "1700000000.aletheia");
            assert_eq!(
                entry_views(&entries),
                vec![("{XDGData}/G/a.sav".to_owned(), vec![1]), ("{XDGData}/G/b.sav".to_owned(), vec![3])]
            );
        }
        _ => panic!("expected an archive"),
    }
}

#[test]
fn backup_stops_when_nothing_to_keep_or_unchanged() {
    let only_ignored = BackupEvent::FilesFound {
        previous: None,
        found: vec![found("x/steam_autocloud.vdf", "steam_autocloud.vdf", false, &[1]), found("x/d", "d", true, &[])],
        now_secs: 5,
    };
    assert!(matches!(backup_game(&entry(), Platform::Linux, false, 3, only_ignored), BackupAction::Unchanged));
    let unchanged = BackupEvent::FilesFound {
        previous: Some(vec![file("a", &[1]), file("b", &[2])]),
        found: vec![found("a", "a", false, &[1]), found("b", "b", false, &[2])],
        now_secs: 6,
    };
    assert!(matches!(backup_game(&entry(), Platform::Linux, false, 3, unchanged), BackupAction::Unchanged));
    let changed = BackupEvent::FilesFound {
        previous: Some(vec![file("a", &[1])]),
        found: vec![found("a", "a", false, &[9])],
        now_secs: 7,
    };
    assert!(matches!(backup_game(&entry(), Platform::Linux, false, 3, changed), BackupAction::WriteArchive { .. }));
}

#[test]
fn backup_prunes_beyond_limit() {
    let listing: Vec<Backup> = (1..=4u64).rev().map(|c| Backup { path: format!("{c}.aletheia"), created: c, size: 1 }).collect();
    match backup_game(&entry(), Platform::Linux, false, 2, BackupEvent::ArchiveWritten { listing }) {
        BackupAction::Prune { stale } => assert_eq!(stale.iter().map(|b| b.created).collect::<Vec<_>>(), vec![2, 1]),
        _ => panic!("expected pruning"),
    }
}
