use aletheia::paths::{file_name_unix, is_plain_relative};
use aletheia::platform::Platform;

#[test]
fn plain_relative_paths() {
    assert!(is_plain_relative("a/b/c", Platform::Linux));
    assert!(is_plain_relative("a/./b", Platform::Linux));
    assert!(is_plain_relative("a//b/", Platform::Linux));
    assert!(is_plain_relative("...", Platform::Linux));
    assert!(is_plain_relative("a..b/..c", Platform::Linux));
    assert!(is_plain_relative("", Platform::Linux));
}

#[test]
fn non_plain_paths() {
    assert!(!is_plain_relative("./a", Platform::Linux));
    assert!(!is_plain_relative(".", Platform::Linux));
    assert!(!is_plain_relative("a/..", Platform::Linux));
    assert!(!is_plain_relative("../a", Platform::Linux));
    assert!(!is_plain_relative("/a", Platform::Linux));
    assert!(!is_plain_relative("C:/a", Platform::Windows));
    assert!(!is_plain_relative("\\a", Platform::Windows));
    assert!(!is_plain_relative(".\\a", Platform::Windows));
    assert!(is_plain_relative("a\\..\\b", Platform::Linux));
    assert!(is_plain_relative("1:/a", Platform::Windows));
}

#[test]
fn unix_file_names() {
    assert_eq!(file_name_unix("/games/Hollow Knight"), Some("Hollow Knight".to_owned()));
    assert_eq!(file_name_unix("foo/bar/"), Some("bar".to_owned()));
    assert_eq!(file_name_unix("foo/bar/."), Some("bar".to_owned()));
    assert_eq!(file_name_unix("foo/./"), Some("foo".to_owned()));
    assert_eq!(file_name_unix("foo.txt"), Some("foo.txt".to_owned()));
    assert_eq!(file_name_unix("a/.."), None);
    assert_eq!(file_name_unix("."), None);
    assert_eq!(file_name_unix("/"), None);
    assert_eq!(file_name_unix(""), None);
    assert_eq!(file_name_unix("a/..b"), Some("..b".to_owned()));
}
