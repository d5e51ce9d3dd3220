//! Installed games, as the launcher scanners report them.
use vstd::prelude::*;

verus! {

/// A game installed through some launcher.
pub struct Game {
    pub name: String,
    /// The store's numeric id of the game, where the launcher knows one.
    pub id: Option<u64>,
    pub installation_dir: Option<String>,
    /// The Wine/Proton prefix the game runs in, where it runs in one.
    pub prefix: Option<String>,
    /// The launcher the game was found through, such as `Steam` or `Heroic`.
    pub source: String,
}

/// A game seen as plain values: name, id, installation folder, prefix and
/// launcher.
pub type GameView = (Seq<char>, Option<u64>, Option<Seq<char>>, Option<Seq<char>>, Seq<char>);

pub open spec fn opt_view(s: Option<String>) -> Option<Seq<char>> {
    match s {
        Some(x) => Some(x@),
        None => None,
    }
}

impl View for Game {
    type V = GameView;

    open spec fn view(&self) -> GameView {
        (self.name@, self.id, opt_view(self.installation_dir), opt_view(self.prefix), self.source@)
    }
}

/// The game has the given name and was found through the given launcher.
pub open spec fn is_game_of(g: Game, name: Seq<char>, source: Seq<char>) -> bool {
    g.name@ == name && g.source@ == source
}

/// `i` is the first installed game with this name and launcher.
pub open spec fn is_first_game_of(games: Seq<Game>, name: Seq<char>, source: Seq<char>, i: int) -> bool {
    &&& 0 <= i < games.len()
    &&& is_game_of(games[i], name, source)
    &&& forall|j: int| 0 <= j < i ==> !#[trigger] is_game_of(games[j], name, source)
}

/// Finds the first installed game with the given name found through the
/// given launcher.
pub fn find_installed_game(games: &Vec<Game>, name: &str, source: &str) -> (r: Option<usize>)
    ensures
        match r {
            Some(i) => is_first_game_of(games@, name@, source@, i as int),
            None => forall|j: int| 0 <= j < games@.len() ==> !#[trigger] is_game_of(games@[j], name@, source@),
        },
        r matches Some(i) ==> games@[i as int].name@ == name@ && games@[i as int].source@ == source@,
        r matches Some(i) ==> forall|j: int| 0 <= j < i ==> !(#[trigger] games@[j].name@ == name@ && games@[j].source@ == source@),
        r is None ==> forall|j: int| 0 <= j < games@.len() ==> !(#[trigger] games@[j].name@ == name@ && games@[j].source@ == source@),
{
    let name_s = name.to_owned();
    let source_s = source.to_owned();
    let mut i: usize = 0;
    while i < games.len()
        invariant
            i <= games.len(),
            name_s@ == name@,
            source_s@ == source@,
            forall|j: int| 0 <= j < i ==> !#[trigger] is_game_of(games@[j], name@, source@),
        decreases games.len() - i,
    {
        if games[i].name == name_s && games[i].source == source_s {
            proof {
                lemma_found_game_matches_exactly(games@, name@, source@);
                assert(is_first_game_of(games@, name@, source@, i as int));
            }
            return Some(i);
        }
        i = i + 1;
    }
    proof {
        lemma_found_game_matches_exactly(games@, name@, source@);
    }
    None
}

} // verus!

verus! {

/// The game found for a name and launcher has exactly that name (not one
/// that merely begins or ends like it) and that launcher, and it is the
/// first such game; when none is found, no installed game has both.
pub proof fn lemma_found_game_matches_exactly(games: Seq<Game>, name: Seq<char>, source: Seq<char>)
    ensures
        forall|i: int| #[trigger] is_first_game_of(games, name, source, i) ==> {
            &&& games[i].name@ == name
            &&& games[i].source@ == source
            &&& forall|j: int| 0 <= j < i ==> !(#[trigger] games[j].name@ == name && games[j].source@ == source)
        },
        (forall|j: int| 0 <= j < games.len() ==> !#[trigger] is_game_of(games[j], name, source))
            ==> forall|j: int| 0 <= j < games.len() ==> !(#[trigger] games[j].name@ == name && games[j].source@ == source),
{
    assert forall|i: int| #[trigger] is_first_game_of(games, name, source, i) implies {
        &&& games[i].name@ == name
        &&& games[i].source@ == source
        &&& forall|j: int| 0 <= j < i ==> !(#[trigger] games[j].name@ == name && games[j].source@ == source)
    } by {
        assert forall|j: int| 0 <= j < i implies !(#[trigger] games[j].name@ == name && games[j].source@ == source) by {
            assert(!is_game_of(games[j], name, source));
        }
    }
    if forall|j: int| 0 <= j < games.len() ==> !#[trigger] is_game_of(games[j], name, source) {
        assert forall|j: int| 0 <= j < games.len() implies !(#[trigger] games[j].name@ == name && games[j].source@ == source) by {
            assert(!is_game_of(games[j], name, source));
        }
    }
}

} // verus!
