//! Games installed through the Heroic and itch.io launchers, assembled from
//! what their libraries record.
use vstd::prelude::*;
use crate::platform::Platform;
use crate::game::{Game, GameView};
use crate::paths::{file_name_unix, unix_file_name};
use crate::text::{parse_unsigned, parsed_unsigned, to_owned_string};

verus! {

/// A JSON document, as far as the scanners read it.
pub enum JsonValue {
    Null,
    Bool(bool),
    /// A number, in its JSON text.
    Number(String),
    Str(String),
    Array(Vec<JsonValue>),
    /// An object's members in document order; keys are distinct.
    Object(Vec<(String, JsonValue)>),
}

/// The value of the first member named `key`.
pub open spec fn member_value(members: Seq<(String, JsonValue)>, key: Seq<char>) -> Option<JsonValue>
    decreases members.len(),
{
    if members.len() == 0 {
        None
    } else if members[0].0@ == key {
        Some(members[0].1)
    } else {
        member_value(members.drop_first(), key)
    }
}

/// The member `key` of an object; nothing for other values.
pub open spec fn json_member(v: JsonValue, key: Seq<char>) -> Option<JsonValue> {
    match v {
        JsonValue::Object(members) => member_value(members@, key),
        _ => None,
    }
}

/// The member `key` of an object; `None` for other values or a missing key.
pub fn json_get<'a>(v: &'a JsonValue, key: &str) -> (r: Option<&'a JsonValue>)
    ensures
        match r {
            Some(x) => json_member(*v, key@) == Some(*x),
            None => json_member(*v, key@) is None,
        },
{
    match v {
        JsonValue::Object(members) => {
            let k = to_owned_string(key);
            let mut i: usize = 0;
            assert(members@.skip(0) =~= members@);
            while i < members.len()
                invariant
                    i <= members.len(),
                    k@ == key@,
                    json_member(*v, key@) == member_value(members@, key@),
                    member_value(members@, key@) == member_value(members@.skip(i as int), key@),
                decreases members.len() - i,
            {
                assert(members@.skip(i as int).drop_first() =~= members@.skip(i + 1));
                assert(members@.skip(i as int)[0] == members@[i as int]);
                if members[i].0 == k {
                    return Some(&members[i].1);
                }
                i = i + 1;
            }
            assert(members@.skip(i as int).len() == 0);
            None
        }
        _ => None,
    }
}

/// The Wine prefix that Heroic's per-game configuration records for
/// `app_name`: the text at `<app_name>.winePrefix`, when it is a string.
pub open spec fn configured_wine_prefix(config: JsonValue, app_name: Seq<char>) -> Option<Seq<char>> {
    match json_member(config, app_name) {
        Some(c) => match json_member(c, "winePrefix"@) {
            Some(JsonValue::Str(s)) => Some(s@),
            _ => None,
        },
        None => None,
    }
}

/// Heroic records a Wine prefix only for Windows games; it spells the
/// platform `windows` for GOG games and `Windows` for sideloaded ones.
pub open spec fn runs_in_wine(platform: Seq<char>) -> bool {
    platform == "Windows"@ || platform == "windows"@
}

/// What was found of a GOG game's manifest in Heroic's data.
pub enum ManifestLookup {
    /// There is no manifest file.
    Missing,
    /// The manifest exists but does not parse.
    Unreadable,
    /// The names of the products the manifest lists, in order.
    Products(Vec<String>),
}

/// A GOG game in Heroic's list of installed games.
pub struct HeroicGogGame {
    pub app_id: String,
    pub install_path: String,
    pub platform: String,
}

/// A sideloaded game in Heroic's library.
pub struct HeroicSideloadGame {
    pub app_name: String,
    pub title: String,
    /// The platform recorded in the game's install information.
    pub platform: String,
    pub folder_name: String,
}

/// A GOG game with what was read for it: its manifest, and its per-game
/// configuration (`None` when it was not read, is missing or does not parse).
pub struct HeroicGogRecord {
    pub game: HeroicGogGame,
    pub manifest: ManifestLookup,
    pub config: Option<JsonValue>,
}

/// A sideloaded game with its per-game configuration (`None` when it was
/// not read, is missing or does not parse).
pub struct HeroicSideloadRecord {
    pub game: HeroicSideloadGame,
    pub config: Option<JsonValue>,
}

/// The name of a GOG game: the first product of its manifest; without a
/// manifest, on Linux the last component of its install path (Heroic keeps
/// no manifest for Linux games), elsewhere none.
pub open spec fn gog_game_name(manifest: ManifestLookup, install_path: Seq<char>, platform: Platform) -> Option<Seq<char>> {
    match manifest {
        ManifestLookup::Products(names) => if names@.len() > 0 { Some(names@[0]@) } else { None },
        ManifestLookup::Unreadable => None,
        ManifestLookup::Missing => if platform is Linux { unix_file_name(install_path) } else { None },
    }
}

/// The Wine prefix of a Heroic game on a platform that uses one (Unix):
/// for a Windows game, the one its configuration records.
pub open spec fn heroic_prefix(app_name: Seq<char>, game_platform: Seq<char>, config: Option<JsonValue>, platform: Platform) -> Option<Seq<char>> {
    if platform is Windows || !runs_in_wine(game_platform) {
        None
    } else {
        match config {
            Some(c) => configured_wine_prefix(c, app_name),
            None => None,
        }
    }
}

/// A number as an optional game id: the parsed value, or none.
pub open spec fn game_id(text: Seq<char>) -> Option<u64> {
    match parsed_unsigned(text, u64::MAX as nat) {
        Some(n) => Some(n as u64),
        None => None,
    }
}

/// The game a GOG record yields, if its name is known.
pub open spec fn gog_game(r: HeroicGogRecord, platform: Platform) -> Option<GameView> {
    match gog_game_name(r.manifest, r.game.install_path@, platform) {
        None => None,
        Some(name) => Some((
            name,
            game_id(r.game.app_id@),
            Some(r.game.install_path@),
            heroic_prefix(r.game.app_id@, r.game.platform@, r.config, platform),
            "Heroic"@,
        )),
    }
}

/// The games of the GOG records whose name is known, in order.
pub open spec fn gog_games(records: Seq<HeroicGogRecord>, platform: Platform) -> Seq<GameView>
    decreases records.len(),
{
    if records.len() == 0 {
        Seq::empty()
    } else {
        let rest = gog_games(records.drop_last(), platform);
        match gog_game(records.last(), platform) {
            Some(g) => rest.push(g),
            None => rest,
        }
    }
}

/// The game a sideloaded record yields.
pub open spec fn sideload_game(r: HeroicSideloadRecord, platform: Platform) -> GameView {
    (
        r.game.title@,
        None,
        Some(r.game.folder_name@),
        heroic_prefix(r.game.app_name@, r.game.platform@, r.config, platform),
        "Heroic"@,
    )
}

/// The games Heroic reports: none when its list of installed GOG games is
/// missing or unreadable; else those GOG games, followed by the sideloaded
/// games when that library could be read.
pub open spec fn heroic_games(gog: Option<Seq<HeroicGogRecord>>, sideload: Option<Seq<HeroicSideloadRecord>>, platform: Platform) -> Seq<GameView> {
    match gog {
        None => Seq::empty(),
        Some(g) => gog_games(g, platform) + match sideload {
            None => Seq::empty(),
            Some(s) => s.map_values(|r: HeroicSideloadRecord| sideload_game(r, platform)),
        },
    }
}

pub open spec fn records_view<T>(v: Option<Vec<T>>) -> Option<Seq<T>> {
    match v {
        Some(x) => Some(x@),
        None => None,
    }
}

pub open spec fn games_view(games: Seq<Game>) -> Seq<GameView> {
    games.map_values(|g: Game| g@)
}

pub struct HeroicScanner;

impl HeroicScanner {
    /// The name of a GOG game installed through Heroic (see `gog_game_name`).
    pub fn get_game_name(manifest: &ManifestLookup, install_path: &str, platform: Platform) -> (r: Option<String>)
        ensures
            match r {
                Some(n) => gog_game_name(*manifest, install_path@, platform) == Some(n@),
                None => gog_game_name(*manifest, install_path@, platform) is None,
            },
    {
        match manifest {
            ManifestLookup::Products(names) => if names.len() > 0 { Some(names[0].clone()) } else { None },
            ManifestLookup::Unreadable => None,
            ManifestLookup::Missing => match platform {
                Platform::Linux => file_name_unix(install_path),
                _ => None,
            },
        }
    }

    /// Whether a game of this Heroic platform can have a Wine prefix, so
    /// that its configuration is worth reading.
    pub fn uses_wine_prefix(game_platform: &str) -> (r: bool)
        ensures
            r == runs_in_wine(game_platform@),
    {
        let p = to_owned_string(game_platform);
        p == to_owned_string("Windows") || p == to_owned_string("windows")
    }

    /// The Wine prefix of a Heroic game (see `heroic_prefix`).
    pub fn get_wine_prefix(app_name: &str, game_platform: &str, config: &Option<JsonValue>, platform: Platform) -> (r: Option<String>)
        ensures
            match r {
                Some(p) => heroic_prefix(app_name@, game_platform@, *config, platform) == Some(p@),
                None => heroic_prefix(app_name@, game_platform@, *config, platform) is None,
            },
    {
        if platform.is_windows() || !Self::uses_wine_prefix(game_platform) {
            return None;
        }
        match config {
            None => None,
            Some(c) => match json_get(c, app_name) {
                None => None,
                Some(entry) => match json_get(entry, "winePrefix") {
                    Some(JsonValue::Str(s)) => Some(s.clone()),
                    _ => None,
                },
            },
        }
    }

    fn gog_record_game(r: &HeroicGogRecord, platform: Platform) -> (g: Option<Game>)
        ensures
            match g {
                Some(x) => gog_game(*r, platform) == Some(x@),
                None => gog_game(*r, platform) is None,
            },
    {
        match Self::get_game_name(&r.manifest, r.game.install_path.as_str(), platform) {
            None => None,
            Some(name) => {
                let id = parse_unsigned(r.game.app_id.as_str(), u64::MAX);
                let prefix = Self::get_wine_prefix(r.game.app_id.as_str(), r.game.platform.as_str(), &r.config, platform);
                let g = Game {
                    name,
                    id,
                    installation_dir: Some(r.game.install_path.clone()),
                    prefix,
                    source: to_owned_string("Heroic"),
                };
                assert(g@.1 == game_id(r.game.app_id@));
                Some(g)
            }
        }
    }

    fn sideload_record_game(r: &HeroicSideloadRecord, platform: Platform) -> (g: Game)
        ensures
            g@ == sideload_game(*r, platform),
    {
        let prefix = Self::get_wine_prefix(r.game.app_name.as_str(), r.game.platform.as_str(), &r.config, platform);
        Game {
            name: r.game.title.clone(),
            id: None,
            installation_dir: Some(r.game.folder_name.clone()),
            prefix,
            source: to_owned_string("Heroic"),
        }
    }

    /// The games installed through Heroic (see `heroic_games`), from its
    /// list of installed GOG games and its sideload library, each `None`
    /// when missing or unreadable.
    pub fn get_games(gog: &Option<Vec<HeroicGogRecord>>, sideload: &Option<Vec<HeroicSideloadRecord>>, platform: Platform) -> (r: Vec<Game>)
        ensures
            games_view(r@) == heroic_games(records_view(*gog), records_view(*sideload), platform),
    {
        let mut games: Vec<Game> = Vec::new();
        let records = match gog {
            None => {
                assert(games_view(games@) =~= Seq::<GameView>::empty());
                return games;
            }
            Some(records) => records,
        };
        let mut i: usize = 0;
        while i < records.len()
            invariant
                i <= records.len(),
                games_view(games@) == gog_games(records@.take(i as int), platform),
            decreases records.len() - i,
        {
            assert(records@.take(i + 1).drop_last() =~= records@.take(i as int));
            let ghost before = games@;
            match Self::gog_record_game(&records[i], platform) {
                Some(g) => {
                    games.push(g);
                    assert(games_view(games@) =~= games_view(before).push(g@));
                }
                None => {}
            }
            i = i + 1;
        }
        assert(records@.take(records.len() as int) =~= records@);
        let ghost gog_part = games_view(games@);
        match sideload {
            None => {
                assert(gog_part =~= gog_part + Seq::<GameView>::empty());
                games
            }
            Some(side) => {
                let mut j: usize = 0;
                while j < side.len()
                    invariant
                        j <= side.len(),
                        games_view(games@) == gog_part + side@.take(j as int).map_values(|r: HeroicSideloadRecord| sideload_game(r, platform)),
                    decreases side.len() - j,
                {
                    let ghost before = games@;
                    let g = Self::sideload_record_game(&side[j], platform);
                    games.push(g);
                    assert(games_view(games@) =~= games_view(before).push(g@));
                    assert(side@.take(j + 1).map_values(|r: HeroicSideloadRecord| sideload_game(r, platform))
                        =~= side@.take(j as int).map_values(|r: HeroicSideloadRecord| sideload_game(r, platform)).push(sideload_game(side@[j as int], platform)));
                    j = j + 1;
                }
                assert(side@.take(side.len() as int) =~= side@);
                games
            }
        }
    }
}

/// The game an itch.io download yields: its title and install folder, with
/// no id and no prefix (itch.io offers no Wine integration).
pub open spec fn itch_game(row: (String, String)) -> GameView {
    (row.0@, None, Some(row.1@), None, "itch.io"@)
}

pub struct ItchScanner;

impl ItchScanner {
    /// The games installed through itch.io, from the (title, install folder)
    /// rows of its downloads, in row order.
    pub fn get_games(rows: &Vec<(String, String)>) -> (r: Vec<Game>)
        ensures
            games_view(r@) == rows@.map_values(|row: (String, String)| itch_game(row)),
            r@.len() == rows@.len(),
            forall|i: int| 0 <= i < r@.len() ==> {
                &&& (#[trigger] r@[i]).name@ == rows@[i].0@
                &&& r@[i].installation_dir is Some && r@[i].installation_dir->Some_0@ == rows@[i].1@
                &&& r@[i].id is None
                &&& r@[i].prefix is None
                &&& r@[i].source@ == "itch.io"@
            },
    {
        let mut games: Vec<Game> = Vec::new();
        let mut i: usize = 0;
        while i < rows.len()
            invariant
                i <= rows.len(),
                games_view(games@) == rows@.take(i as int).map_values(|row: (String, String)| itch_game(row)),
            decreases rows.len() - i,
        {
            let ghost before = games@;
            let g = Game {
                name: rows[i].0.clone(),
                id: None,
                installation_dir: Some(rows[i].1.clone()),
                prefix: None,
                source: to_owned_string("itch.io"),
            };
            games.push(g);
            assert(games_view(games@) =~= games_view(before).push(g@));
            assert(rows@.take(i + 1).map_values(|row: (String, String)| itch_game(row))
                =~= rows@.take(i as int).map_values(|row: (String, String)| itch_game(row)).push(itch_game(rows@[i as int])));
            i = i + 1;
        }
        assert(rows@.take(rows.len() as int) =~= rows@);
        assert forall|i: int| 0 <= i < games@.len() implies {
            &&& (#[trigger] games@[i]).name@ == rows@[i].0@
            &&& games@[i].installation_dir is Some && games@[i].installation_dir->Some_0@ == rows@[i].1@
            &&& games@[i].id is None
            &&& games@[i].prefix is None
            &&& games@[i].source@ == "itch.io"@
        } by {
            assert(games_view(games@)[i] == games@[i]@);
            assert(games_view(games@)[i] == itch_game(rows@[i]));
        }
        games
    }
}

} // verus!

verus! {

/// On every platform but Windows (Linux and macOS alike), a Windows game
/// (Heroic platform `windows` or `Windows`) whose configuration records a
/// string `winePrefix` for it gets that prefix. On Windows, and for other
/// games, there is no prefix.
pub proof fn lemma_wine_prefix_outside_windows(app_name: Seq<char>, game_platform: Seq<char>, config: Option<JsonValue>, platform: Platform)
    ensures
        !(platform is Windows) && (game_platform == "windows"@ || game_platform == "Windows"@) && config is Some
            ==> heroic_prefix(app_name, game_platform, config, platform) == configured_wine_prefix(config->Some_0, app_name),
        platform is Windows ==> heroic_prefix(app_name, game_platform, config, platform) is None,
        !(game_platform == "windows"@ || game_platform == "Windows"@) ==> heroic_prefix(app_name, game_platform, config, platform) is None,
        config is None ==> heroic_prefix(app_name, game_platform, config, platform) is None,
{
}

} // verus!

verus! {

/// Every game Heroic reports has the source `Heroic`; without a readable
/// list of GOG games there are none; and after the GOG games come all the
/// sideloaded games, in order, each with its title and folder and no id.
pub proof fn lemma_heroic_games_shape(gog: Option<Seq<HeroicGogRecord>>, sideload: Option<Seq<HeroicSideloadRecord>>, platform: Platform)
    ensures
        forall|k: int| 0 <= k < heroic_games(gog, sideload, platform).len() ==> (#[trigger] heroic_games(gog, sideload, platform)[k]).4 == "Heroic"@,
        gog is None ==> heroic_games(gog, sideload, platform).len() == 0,
        gog is Some && sideload is Some ==> {
            let all = heroic_games(gog, sideload, platform);
            let n = all.len() - sideload->Some_0.len();
            &&& n >= 0
            &&& forall|j: int| 0 <= j < sideload->Some_0.len() ==> {
                &&& (#[trigger] all[n + j]).0 == sideload->Some_0[j].game.title@
                &&& all[n + j].1 is None
                &&& all[n + j].2 == Some(sideload->Some_0[j].game.folder_name@)
            }
        },
{
    if let Some(g) = gog {
        lemma_gog_games_source(g, platform);
        let gg = gog_games(g, platform);
        let sg = match sideload {
            None => Seq::empty(),
            Some(s) => s.map_values(|r: HeroicSideloadRecord| sideload_game(r, platform)),
        };
        let all = heroic_games(gog, sideload, platform);
        assert(all == gg + sg);
        assert forall|k: int| 0 <= k < all.len() implies (#[trigger] all[k]).4 == "Heroic"@ by {
            if k < gg.len() {
                assert(all[k] == gg[k]);
            } else {
                assert(all[k] == sg[k - gg.len()]);
            }
        }
        if let Some(s) = sideload {
            assert forall|j: int| 0 <= j < s.len() implies {
                &&& (#[trigger] all[gg.len() + j]).0 == s[j].game.title@
                &&& all[gg.len() + j].1 is None
                &&& all[gg.len() + j].2 == Some(s[j].game.folder_name@)
            } by {
                assert(all[gg.len() + j] == sg[j]);
            }
        }
    }
}

proof fn lemma_gog_games_source(records: Seq<HeroicGogRecord>, platform: Platform)
    ensures
        forall|k: int| 0 <= k < gog_games(records, platform).len() ==> (#[trigger] gog_games(records, platform)[k]).4 == "Heroic"@,
    decreases records.len(),
{
    if records.len() > 0 {
        lemma_gog_games_source(records.drop_last(), platform);
        let rest = gog_games(records.drop_last(), platform);
        assert forall|k: int| 0 <= k < gog_games(records, platform).len() implies (#[trigger] gog_games(records, platform)[k]).4 == "Heroic"@ by {
            if k < rest.len() {
                assert(gog_games(records, platform)[k] == rest[k]);
            }
        }
    }
}

} // verus!

verus! {

/// Looking up a member of a JSON object gives the value of the first member
/// with that key, and nothing when no member has it; other values have no
/// members.
pub proof fn lemma_json_member(members: Vec<(String, JsonValue)>, key: Seq<char>, k: int)
    ensures
        (0 <= k < members@.len() && members@[k].0@ == key && forall|j: int| 0 <= j < k ==> (#[trigger] members@[j]).0@ != key)
            ==> json_member(JsonValue::Object(members), key) == Some(members@[k].1),
        (forall|j: int| 0 <= j < members@.len() ==> (#[trigger] members@[j]).0@ != key)
            ==> json_member(JsonValue::Object(members), key) is None,
{
    lemma_member_value(members@, key, k);
}

proof fn lemma_member_value(members: Seq<(String, JsonValue)>, key: Seq<char>, k: int)
    ensures
        (0 <= k < members.len() && members[k].0@ == key && forall|j: int| 0 <= j < k ==> (#[trigger] members[j]).0@ != key)
            ==> member_value(members, key) == Some(members[k].1),
        (forall|j: int| 0 <= j < members.len() ==> (#[trigger] members[j]).0@ != key) ==> member_value(members, key) is None,
    decreases members.len(),
{
    if members.len() > 0 {
        let rest = members.drop_first();
        lemma_member_value(rest, key, k - 1);
        if 0 <= k < members.len() && members[k].0@ == key && forall|j: int| 0 <= j < k ==> (#[trigger] members[j]).0@ != key {
            if k > 0 {
                assert(members[0].0@ != key);
                assert(rest[k - 1] == members[k]);
                assert forall|j: int| 0 <= j < k - 1 implies (#[trigger] rest[j]).0@ != key by {
                    assert(rest[j] == members[j + 1]);
                }
            }
        }
        if forall|j: int| 0 <= j < members.len() ==> (#[trigger] members[j]).0@ != key {
            assert(members[0].0@ != key);
            assert forall|j: int| 0 <= j < rest.len() implies (#[trigger] rest[j]).0@ != key by {
                assert(rest[j] == members[j + 1]);
            }
        }
    }
}

} // verus!

verus! {

/// How a GOG game installed through Heroic is named: by the first product
/// of its manifest; by nothing when the manifest lists no product or does
/// not parse; without a manifest, on Linux by the last component of its
/// install path, elsewhere by nothing. A GOG game without a name is left
/// out of Heroic's games.
pub proof fn lemma_gog_game_naming(r: HeroicGogRecord, platform: Platform)
    ensures
        match r.manifest {
            ManifestLookup::Products(names) => if names@.len() > 0 {
                gog_game(r, platform) matches Some(g) && g.0 == names@[0]@
            } else {
                gog_game(r, platform) is None
            },
            _ => true,
        },
        r.manifest is Unreadable ==> gog_game(r, platform) is None,
        r.manifest is Missing && platform is Linux ==> match unix_file_name(r.game.install_path@) {
            Some(n) => (gog_game(r, platform) matches Some(g) && g.0 == n),
            None => gog_game(r, platform) is None,
        },
        r.manifest is Missing && !(platform is Linux) ==> gog_game(r, platform) is None,
        gog_game(r, platform) matches Some(g) ==> g.1 == game_id(r.game.app_id@) && g.2 == Some(r.game.install_path@) && g.4 == "Heroic"@,
{
}

} // verus!
