//! Finding out which installed game a launcher is starting, so that its
//! latest backup can be restored before it runs.
use vstd::prelude::*;
use vstd::string::*;
use vstd::utf8::is_ascii_chars;
use crate::game::{Game, find_installed_game, is_first_game_of, is_game_of};
use crate::text::{parse_unsigned, parsed_unsigned, to_owned_string};

verus! {

/// The launchers whose launches can be recognised.
#[derive(Clone, Copy, Debug, PartialEq, Eq)]
pub enum LauncherKind {
    Heroic,
    Lutris,
    Steam,
}

/// The lowercase form of a string, as `str::to_lowercase` computes it.
pub uninterp spec fn lowercase(s: Seq<char>) -> Seq<char>;

/// ASCII letters made lowercase, other characters kept.
pub open spec fn ascii_lowercase(s: Seq<char>) -> Seq<char> {
    s.map_values(|c: char| if 'A' <= c && c <= 'Z' { ((c as int) + 32) as char } else { c })
}

/// Lowercases a string.
///
/// Trusted: calls `str::to_lowercase`, which maps each character to its
/// Unicode lowercase; the contract names the result `lowercase`, and states
/// that on ASCII text it lowers exactly the letters `A`-`Z`.
#[verifier::external_body]
fn to_lowercase(s: &str) -> (r: String)
    ensures
        r@ == lowercase(s@),
        is_ascii_chars(s@) ==> r@ == ascii_lowercase(s@),
{
    s.to_lowercase()
}

/// The launcher that a lowercased name denotes: `heroic`, `steam`, and
/// `lutris` where Lutris is supported (Linux).
pub open spec fn launcher_named(lower: Seq<char>, lutris_supported: bool) -> Option<LauncherKind> {
    if lower == "heroic"@ {
        Some(LauncherKind::Heroic)
    } else if lower == "lutris"@ && lutris_supported {
        Some(LauncherKind::Lutris)
    } else if lower == "steam"@ {
        Some(LauncherKind::Steam)
    } else {
        None
    }
}

/// The launcher that an already lowercased name denotes.
pub fn launcher_from_lowercase(lower: &str, lutris_supported: bool) -> (r: Option<LauncherKind>)
    ensures
        r == launcher_named(lower@, lutris_supported),
{
    let s = to_owned_string(lower);
    if s == to_owned_string("heroic") {
        Some(LauncherKind::Heroic)
    } else if lutris_supported && s == to_owned_string("lutris") {
        Some(LauncherKind::Lutris)
    } else if s == to_owned_string("steam") {
        Some(LauncherKind::Steam)
    } else {
        None
    }
}

/// The launcher that a launcher name (in any case) denotes.
pub fn launcher_from_name(launcher: &str, lutris_supported: bool) -> (r: Option<LauncherKind>)
    ensures
        r == launcher_named(lowercase(launcher@), lutris_supported),
        is_ascii_chars(launcher@) ==> r == launcher_named(ascii_lowercase(launcher@), lutris_supported),
{
    let lower = to_lowercase(launcher);
    launcher_from_lowercase(lower.as_str(), lutris_supported)
}

/// What has happened so far when restoring the game a launcher starts.
pub enum InferEvent {
    /// The restore begins.
    Start,
    /// The launcher's game was looked up among the installed games: the
    /// name of the game found, if any.
    GameLookedUp(Option<String>),
}

/// What restoring the game a launcher starts does next.
pub enum InferAction {
    /// Stop: the launcher is not supported (nothing is restored).
    Unsupported,
    /// Look up, among the installed games, the game this launcher starts.
    FindGame(LauncherKind),
    /// Restore the latest backup of the installed game with this name, once.
    RestoreGame(String),
    /// Stop: no game was found, so nothing is restored.
    NothingToRestore,
}

/// The step of restoring the game started by the launcher named `launcher`
/// that follows `event`.
pub open spec fn infer_step(launcher: Seq<char>, lutris_supported: bool, event: InferEvent, action: InferAction) -> bool {
    match event {
        InferEvent::Start => match launcher_named(lowercase(launcher), lutris_supported) {
            None => action is Unsupported,
            Some(k) => action == InferAction::FindGame(k),
        },
        InferEvent::GameLookedUp(found) => match found {
            Some(name) => action matches InferAction::RestoreGame(n) && n@ == name@,
            None => action is NothingToRestore,
        },
    }
}

/// Decides the next step of restoring the game that a launcher starts (see
/// `infer_step`): which launcher to ask, by its name in any case; then the
/// game found is restored, and nothing when none was found.
pub fn restore(launcher: &str, lutris_supported: bool, event: InferEvent) -> (r: InferAction)
    ensures
        infer_step(launcher@, lutris_supported, event, r),
        event is Start && is_ascii_chars(launcher@) ==> match launcher_named(ascii_lowercase(launcher@), lutris_supported) {
            None => r is Unsupported,
            Some(k) => r == InferAction::FindGame(k),
        },
{
    match event {
        InferEvent::Start => match launcher_from_name(launcher, lutris_supported) {
            None => InferAction::Unsupported,
            Some(k) => InferAction::FindGame(k),
        },
        InferEvent::GameLookedUp(found) => match found {
            Some(name) => InferAction::RestoreGame(name),
            None => InferAction::NothingToRestore,
        },
    }
}

/// ASCII lowercasing keeps text ASCII and does nothing more when applied
/// again, so for an ASCII launcher name the launcher chosen from the name
/// and from its lowercase form is the same: names match in any ASCII case.
pub proof fn lemma_launcher_case_insensitive(launcher: Seq<char>, lutris_supported: bool)
    requires
        is_ascii_chars(launcher),
    ensures
        is_ascii_chars(ascii_lowercase(launcher)),
        ascii_lowercase(ascii_lowercase(launcher)) == ascii_lowercase(launcher),
        launcher_named(ascii_lowercase(ascii_lowercase(launcher)), lutris_supported)
            == launcher_named(ascii_lowercase(launcher), lutris_supported),
{
    let l = ascii_lowercase(launcher);
    assert forall|i: int| 0 <= i < l.len() implies '\0' <= #[trigger] l[i] <= '\u{7f}' by {
        assert('\0' <= launcher[i] <= '\u{7f}');
    }
    assert(ascii_lowercase(l) =~= l);
}

/// The first installed game with the given name found through `source`.
pub open spec fn game_found(games: Seq<Game>, name: Seq<char>, source: Seq<char>, r: Option<&Game>) -> bool {
    match r {
        Some(g) => exists|i: int| is_first_game_of(games, name, source, i) && *g == games[i],
        None => forall|j: int| 0 <= j < games.len() ==> !#[trigger] is_game_of(games[j], name, source),
    }
}

fn get_game_from<'a>(installed_games: &'a Vec<Game>, name: &str, source: &str) -> (r: Option<&'a Game>)
    ensures
        game_found(installed_games@, name@, source@, r),
{
    match find_installed_game(installed_games, name, source) {
        Some(i) => Some(&installed_games[i]),
        None => None,
    }
}

/// Games started by Lutris.
pub struct Lutris;

impl Lutris {
    /// The game Lutris is starting, from the `GAME_NAME` Lutris sets (`None`
    /// when it is not set): the first installed Lutris game of that name.
    pub fn get_game<'a>(installed_games: &'a Vec<Game>, game_name: Option<&str>) -> (r: Option<&'a Game>)
        ensures
            game_name is None ==> r is None,
            game_name matches Some(n) ==> game_found(installed_games@, n@, "Lutris"@, r),
    {
        match game_name {
            None => None,
            Some(n) => get_game_from(installed_games, n, "Lutris"),
        }
    }
}

/// Games started by Steam.
pub struct Steam;

impl Steam {
    /// The app id that `SteamAppId` holds: an unsigned 32-bit decimal
    /// number, else `None` (also when the variable is not set).
    pub fn app_id(app_id_var: Option<&str>) -> (r: Option<u32>)
        ensures
            app_id_var is None ==> r is None,
            app_id_var matches Some(v) ==> match r {
                Some(id) => parsed_unsigned(v@, u32::MAX as nat) == Some(id as nat),
                None => parsed_unsigned(v@, u32::MAX as nat) is None,
            },
    {
        match app_id_var {
            None => None,
            Some(v) => match parse_unsigned(v, 0xffff_ffffu64) {
                Some(id) => Some(id as u32),
                None => None,
            },
        }
    }

    /// The game Steam is starting, given the name Steam's library records
    /// for the app (`None` when the app or its name could not be found):
    /// the first installed Steam game of that name.
    pub fn get_game<'a>(installed_games: &'a Vec<Game>, app_name: Option<&str>) -> (r: Option<&'a Game>)
        ensures
            app_name is None ==> r is None,
            app_name matches Some(n) ==> game_found(installed_games@, n@, "Steam"@, r),
    {
        match app_name {
            None => None,
            Some(n) => get_game_from(installed_games, n, "Steam"),
        }
    }
}

} // verus!

verus! {

/// Exactly three lowercase names denote a launcher: `heroic`, `steam`, and
/// `lutris` where Lutris is supported; each denotes its own launcher.
pub proof fn lemma_launcher_names(lower: Seq<char>, lutris_supported: bool)
    ensures
        launcher_named(lower, lutris_supported) == Some(LauncherKind::Heroic) <==> lower == "heroic"@,
        launcher_named(lower, lutris_supported) == Some(LauncherKind::Steam) <==> lower == "steam"@,
        launcher_named(lower, lutris_supported) == Some(LauncherKind::Lutris) <==> (lower == "lutris"@ && lutris_supported),
        launcher_named(lower, lutris_supported) is None <==> !(lower == "heroic"@ || lower == "steam"@ || (lower == "lutris"@ && lutris_supported)),
{
    reveal_strlit("heroic");
    reveal_strlit("steam");
    reveal_strlit("lutris");
    assert("heroic"@ != "steam"@) by { assert("heroic"@[0] != "steam"@[0]); }
    assert("heroic"@ != "lutris"@) by { assert("heroic"@[0] != "lutris"@[0]); }
    assert("lutris"@ != "steam"@) by { assert("lutris"@[0] != "steam"@[0]); }
}

/// A game found for the launcher is restored, and it is that game; when no
/// game is found nothing is restored. The start step never restores.
pub proof fn lemma_restore_found_game(launcher: Seq<char>, lutris_supported: bool, found: Option<String>, action: InferAction, start_action: InferAction)
    requires
        infer_step(launcher, lutris_supported, InferEvent::GameLookedUp(found), action),
        infer_step(launcher, lutris_supported, InferEvent::Start, start_action),
    ensures
        found is Some ==> (action matches InferAction::RestoreGame(n) && n@ == found->Some_0@),
        found is None ==> !(action is RestoreGame),
        !(start_action is RestoreGame),
{
}

} // verus!
