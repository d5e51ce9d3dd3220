use aletheia::commands::Verify;

#[test]
fn verify_targets() {
    let args = vec!["a.aletheia".to_owned(), "b".to_owned()];
    assert_eq!(Verify::requested_archive(&args).map(|s| s.as_str()), Some("a.aletheia"));
    assert_eq!(Verify::requested_archive(&vec![]), None);
    assert_eq!(Verify::folder_archive_name(), "backup.aletheia");
}
