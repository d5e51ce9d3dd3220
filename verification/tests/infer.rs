use aletheia::game::{find_installed_game, Game};
use aletheia::infer::{launcher_from_lowercase, launcher_from_name, restore, InferAction, InferEvent, LauncherKind, Lutris, Steam};

fn game(name: &str, source: &str, dir: &str) -> Game {
    Game { name: name.to_owned(), id: None, installation_dir: Some(dir.to_owned()), prefix: None, source: source.to_owned() }
}

fn installed() -> Vec<Game> {
    vec![
        game("Celeste", "Heroic", "/h/celeste"),
        game("Celeste", "Lutris", "/l/celeste"),
        game("Hades", "Steam", "/s/hades"),
        game("Celeste", "Lutris", "/l/celeste2"),
    ]
}

#[test]
fn launcher_names_in_any_case() {
    assert_eq!(launcher_from_name("steam", true), Some(LauncherKind::Steam));
    assert_eq!(launcher_from_name("STEAM", true), Some(LauncherKind::Steam));
    assert_eq!(launcher_from_name("Heroic", false), Some(LauncherKind::Heroic));
    assert_eq!(launcher_from_name("LuTrIs", true), Some(LauncherKind::Lutris));
    assert_eq!(launcher_from_name("lutris", false), None);
    assert_eq!(launcher_from_name("epic", true), None);
    assert_eq!(launcher_from_name("", true), None);
    assert_eq!(launcher_from_lowercase("Steam", true), None);
}

#[test]
fn find_first_installed_game() {
    let games = installed();
    assert_eq!(find_installed_game(&games, "Celeste", "Lutris"), Some(1));
    assert_eq!(find_installed_game(&games, "Hades", "Steam"), Some(2));
    assert_eq!(find_installed_game(&games, "Hades", "Heroic"), None);
}

#[test]
fn lutris_game() {
    let games = installed();
    let g = Lutris::get_game(&games, Some("Celeste")).expect("found");
    assert_eq!(g.installation_dir.as_deref(), Some("/l/celeste"));
    assert!(Lutris::get_game(&games, None).is_none());
    assert!(Lutris::get_game(&games, Some("Hades")).is_none());
}

#[test]
fn steam_game() {
    let games = installed();
    assert_eq!(Steam::get_game(&games, Some("Hades")).map(|g| g.name.clone()), Some("Hades".to_owned()));
    assert!(Steam::get_game(&games, Some("Celeste")).is_none());
    assert!(Steam::get_game(&games, None).is_none());
}

#[test]
fn steam_app_id() {
    assert_eq!(Steam::app_id(Some("4141950")), Some(4141950));
    assert_eq!(Steam::app_id(Some("4294967295")), Some(u32::MAX));
    assert_eq!(Steam::app_id(Some("4294967296")), None);
    assert_eq!(Steam::app_id(Some("abc")), None);
    assert_eq!(Steam::app_id(None), None);
}

#[test]
fn restore_steps() {
    assert!(matches!(restore("Steam", true, InferEvent::Start), InferAction::FindGame(LauncherKind::Steam)));
    assert!(matches!(restore("STEAM", true, InferEvent::Start), InferAction::FindGame(LauncherKind::Steam)));
    assert!(matches!(restore("epic", true, InferEvent::Start), InferAction::Unsupported));
    match restore("steam", true, InferEvent::GameLookedUp(Some("Hades".to_owned()))) {
        InferAction::RestoreGame(name) => assert_eq!(name, "Hades"),
        _ => panic!("expected a restore"),
    }
    assert!(matches!(restore("steam", true, InferEvent::GameLookedUp(None)), InferAction::NothingToRestore));
}
