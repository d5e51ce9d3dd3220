use aletheia::platform::Platform;
use aletheia::scanner::{
    json_get, HeroicGogGame, HeroicGogRecord, HeroicScanner, HeroicSideloadGame, HeroicSideloadRecord, ItchScanner,
    JsonValue, ManifestLookup,
};

fn config(app: &str, prefix: JsonValue) -> JsonValue {
    JsonValue::Object(vec![
        ("other".to_owned(), JsonValue::Null),
        (app.to_owned(), JsonValue::Object(vec![("winePrefix".to_owned(), prefix)])),
    ])
}

#[test]
fn json_members() {
    let doc = config("123", JsonValue::Str("/p".to_owned()));
    assert!(matches!(json_get(&doc, "other"), Some(JsonValue::Null)));
    assert!(json_get(&doc, "missing").is_none());
    assert!(json_get(&JsonValue::Array(vec![JsonValue::Null]), "0").is_none());
}

#[test]
fn heroic_game_names() {
    let products = ManifestLookup::Products(vec!["Hollow Knight".to_owned(), "DLC".to_owned()]);
    assert_eq!(HeroicScanner::get_game_name(&products, "/g/hk", Platform::Linux), Some("Hollow Knight".to_owned()));
    assert_eq!(HeroicScanner::get_game_name(&ManifestLookup::Products(vec![]), "/g/hk", Platform::Linux), None);
    assert_eq!(HeroicScanner::get_game_name(&ManifestLookup::Unreadable, "/g/hk", Platform::Linux), None);
    assert_eq!(HeroicScanner::get_game_name(&ManifestLookup::Missing, "/g/Hollow Knight/", Platform::Linux), Some("Hollow Knight".to_owned()));
    assert_eq!(HeroicScanner::get_game_name(&ManifestLookup::Missing, "/g/hk", Platform::Windows), None);
}

#[test]
fn heroic_wine_prefixes() {
    let c = Some(config("123", JsonValue::Str("/home/u/Games/Heroic/Prefixes/x".to_owned())));
    assert_eq!(
        HeroicScanner::get_wine_prefix("123", "windows", &c, Platform::Linux),
        Some("/home/u/Games/Heroic/Prefixes/x".to_owned())
    );
    assert_eq!(HeroicScanner::get_wine_prefix("123", "Windows", &c, Platform::Linux), Some("/home/u/Games/Heroic/Prefixes/x".to_owned()));
    assert_eq!(HeroicScanner::get_wine_prefix("123", "linux", &c, Platform::Linux), None);
    assert_eq!(HeroicScanner::get_wine_prefix("124", "windows", &c, Platform::Linux), None);
    assert_eq!(HeroicScanner::get_wine_prefix("123", "windows", &None, Platform::Linux), None);
    assert_eq!(HeroicScanner::get_wine_prefix("123", "windows", &c, Platform::Windows), None);
    let n = Some(config("123", JsonValue::Number("5".to_owned())));
    assert_eq!(HeroicScanner::get_wine_prefix("123", "windows", &n, Platform::Linux), None);
    assert!(HeroicScanner::uses_wine_prefix("Windows"));
    assert!(!HeroicScanner::uses_wine_prefix("WINDOWS"));
}

#[test]
fn heroic_games() {
    let gog = Some(vec![
        HeroicGogRecord {
            game: HeroicGogGame { app_id: "1207658924".to_owned(), install_path: "/g/A".to_owned(), platform: "windows".to_owned() },
            manifest: ManifestLookup::Products(vec!["Game A".to_owned()]),
            config: Some(config("1207658924", JsonValue::Str("/pfx/a".to_owned()))),
        },
        HeroicGogRecord {
            game: HeroicGogGame { app_id: "x1".to_owned(), install_path: "/g/B".to_owned(), platform: "linux".to_owned() },
            manifest: ManifestLookup::Unreadable,
            config: None,
        },
        HeroicGogRecord {
            game: HeroicGogGame { app_id: "77".to_owned(), install_path: "/g/Game C".to_owned(), platform: "linux".to_owned() },
            manifest: ManifestLookup::Missing,
            config: None,
        },
    ]);
    let side = Some(vec![HeroicSideloadRecord {
        game: HeroicSideloadGame {
            app_name: "abc".to_owned(),
            title: "Side".to_owned(),
            platform: "Windows".to_owned(),
            folder_name: "/g/side".to_owned(),
        },
        config: Some(config("abc", JsonValue::Str("/pfx/side".to_owned()))),
    }]);
    let games = HeroicScanner::get_games(&gog, &side, Platform::Linux);
    assert_eq!(games.len(), 3);
    assert_eq!(games[0].name, "Game A");
    assert_eq!(games[0].id, Some(1207658924));
    assert_eq!(games[0].prefix.as_deref(), Some("/pfx/a"));
    assert_eq!(games[0].source, "Heroic");
    assert_eq!(games[1].name, "Game C");
    assert_eq!(games[1].id, Some(77));
    assert_eq!(games[1].prefix, None);
    assert_eq!(games[2].name, "Side");
    assert_eq!(games[2].id, None);
    assert_eq!(games[2].installation_dir.as_deref(), Some("/g/side"));
    assert_eq!(games[2].prefix.as_deref(), Some("/pfx/side"));
    assert!(HeroicScanner::get_games(&None, &side, Platform::Linux).is_empty());
    assert_eq!(HeroicScanner::get_games(&gog, &None, Platform::Linux).len(), 2);
    let on_windows = HeroicScanner::get_games(&gog, &side, Platform::Windows);
    assert_eq!(on_windows.len(), 2);
    assert_eq!(on_windows[0].prefix, None);
}

#[test]
fn itch_games() {
    let rows = vec![("Celeste".to_owned(), "/itch/celeste".to_owned()), ("Baba".to_owned(), "/itch/baba".to_owned())];
    let games = ItchScanner::get_games(&rows);
    assert_eq!(games.len(), 2);
    assert_eq!(games[1].name, "Baba");
    assert_eq!(games[1].installation_dir.as_deref(), Some("/itch/baba"));
    assert_eq!(games[1].source, "itch.io");
    assert_eq!(games[1].prefix, None);
    assert_eq!(games[1].id, None);
}
