use aletheia::backups::{archive_file_name, is_archive_file_name, list_backups, sort_newest_first, prune_backups, Backup, ScannedEntry};

fn entry(name: &str, created: Option<u64>, size: Option<u64>) -> ScannedEntry {
    ScannedEntry { path: format!("saves/Game/{name}"), file_name: name.to_owned(), created, size }
}

fn backup(created: u64) -> Backup {
    Backup { path: format!("saves/Game/{created}.aletheia"), created, size: 10 }
}

#[test]
fn archive_extension_is_recognised() {
    assert!(is_archive_file_name("1700000000.aletheia"));
    assert!(is_archive_file_name("a..aletheia"));
    assert!(!is_archive_file_name(".aletheia"));
    assert!(!is_archive_file_name("1700000000.aletheia.bak"));
    assert!(!is_archive_file_name("1700000000.zip"));
    assert!(!is_archive_file_name("aletheia"));
}

#[test]
fn archive_names() {
    assert_eq!(archive_file_name(1700000000), "1700000000.aletheia");
    assert_eq!(archive_file_name(0), "0.aletheia");
    assert!(is_archive_file_name(&archive_file_name(42)));
}

#[test]
fn listing_filters_and_sorts_newest_first() {
    let entries = vec![
        entry("100.aletheia", Some(100), Some(1)),
        entry("notes.txt", Some(500), Some(1)),
        entry("300.aletheia", Some(300), Some(3)),
        entry("broken.aletheia", None, Some(3)),
        entry("gone.aletheia", Some(400), None),
        entry("200.aletheia", Some(200), Some(2)),
    ];
    let listed = list_backups(&entries);
    let created: Vec<u64> = listed.iter().map(|b| b.created).collect();
    assert_eq!(created, vec![300, 200, 100]);
    assert_eq!(listed[0].path, "saves/Game/300.aletheia");
    assert_eq!(listed[0].size, 3);
    assert!(list_backups(&vec![]).is_empty());
}

#[test]
fn sorting_keeps_every_backup() {
    let sorted = sort_newest_first(vec![backup(5), backup(9), backup(5), backup(1), backup(7)]);
    let created: Vec<u64> = sorted.iter().map(|b| b.created).collect();
    assert_eq!(created, vec![9, 7, 5, 5, 1]);
}

#[test]
fn pruning_removes_all_but_newest() {
    let listing = || vec![backup(4), backup(3), backup(2), backup(1)];
    let stale: Vec<u64> = prune_backups(listing(), 2).iter().map(|b| b.created).collect();
    assert_eq!(stale, vec![2, 1]);
    assert!(prune_backups(listing(), 0).is_empty());
    assert!(prune_backups(listing(), 4).is_empty());
    assert!(prune_backups(listing(), 200).is_empty());
    assert_eq!(prune_backups(listing(), 3).len(), 1);
}
