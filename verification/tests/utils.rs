use aletheia::utils::sanitize_game_name;
use std::borrow::Cow;

#[test]
fn sanitize_removes_invalid_characters() {
    assert_eq!(sanitize_game_name("Foo: Bar/Baz\\Qux"), "Foo BarBazQux");
    assert_eq!(sanitize_game_name("::"), "");
}

#[test]
fn sanitize_keeps_clean_names() {
    assert_eq!(sanitize_game_name("Kugayama Shiori's Death Diary"), "Kugayama Shiori's Death Diary");
    assert_eq!(sanitize_game_name("久我山栞の死様手帖"), "久我山栞の死様手帖");
    assert_eq!(sanitize_game_name(""), "");
}

#[test]
fn sanitize_is_idempotent() {
    let once = sanitize_game_name("A:B/C\\D");
    assert_eq!(sanitize_game_name(&once), once);
}

#[test]
fn clean_names_are_borrowed() {
    let name = "Celeste";
    match sanitize_game_name(name) {
        Cow::Borrowed(b) => assert!(std::ptr::eq(b, name)),
        Cow::Owned(_) => panic!("a clean name is borrowed"),
    }
    assert!(matches!(sanitize_game_name("A:B"), Cow::Owned(_)));
    let once = sanitize_game_name("A:B/C");
    assert!(matches!(sanitize_game_name(&once), Cow::Borrowed(_)));
}
