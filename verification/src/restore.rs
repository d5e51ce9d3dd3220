//! Restoring a backup: which archived files may be written back, and which
//! archive a restore opens.
use vstd::prelude::*;
use crate::platform::Platform;
use crate::paths::{all_components_normal, is_plain_relative};
use crate::gamedb::{GameDbEntry, pattern_list, restore_patterns};
use crate::patterns::{any_pattern_accepts, any_pattern_accepts_exec, pattern_accepts};
use crate::backups::Backup;
use crate::text::to_owned_string;

verus! {

/// A file recorded in a backup archive: its path with the save-location
/// placeholders left in (such as `{SteamUserData}/...`), and its checksum.
pub struct ArchiveEntry {
    pub shrunk_path: String,
    pub checksum: Vec<u8>,
}

impl View for ArchiveEntry {
    type V = (Seq<char>, Seq<u8>);

    open spec fn view(&self) -> (Seq<char>, Seq<u8>) {
        (self.shrunk_path@, self.checksum@)
    }
}

/// Why a restore failed.
pub enum Error {
    /// Reading or extracting the archive failed; the message says how.
    Archive(String),
    /// The game has no backup to restore.
    NoBackupsFound,
}

impl Error {
    /// The message of the error.
    pub fn message(&self) -> (r: String)
        ensures
            self is NoBackupsFound ==> r@ == "No backups found"@,
            self matches Error::Archive(m) ==> r@ == "Archive error: "@ + m@,
    {
        match self {
            Error::Archive(m) => {
                let mut s = to_owned_string("Archive error: ");
                vstd::string::StringExecFns::append(&mut s, m.as_str());
                s
            }
            Error::NoBackupsFound => to_owned_string("No backups found"),
        }
    }
}

/// A path may be restored for a game when it stays inside the folder it is
/// resolved against and some save pattern of the game accepts it.
pub open spec fn known_save_path(shrunk: Seq<char>, entry: GameDbEntry, platform: Platform) -> bool {
    all_components_normal(shrunk, platform) && any_pattern_accepts(restore_patterns(entry.files, platform), shrunk)
}

proof fn lemma_any_accepts_concat(a: Seq<Seq<char>>, b: Seq<Seq<char>>, c: Seq<char>)
    ensures
        any_pattern_accepts(a + b, c) == (any_pattern_accepts(a, c) || any_pattern_accepts(b, c)),
{
    if any_pattern_accepts(a + b, c) {
        let i = choose|i: int| 0 <= i < (a + b).len() && #[trigger] pattern_accepts((a + b)[i], c);
        if i < a.len() {
            assert(pattern_accepts(a[i], c));
        } else {
            assert(pattern_accepts(b[i - a.len()], c));
        }
    }
    if any_pattern_accepts(a, c) {
        let i = choose|i: int| 0 <= i < a.len() && #[trigger] pattern_accepts(a[i], c);
        assert(pattern_accepts((a + b)[i], c));
    }
    if any_pattern_accepts(b, c) {
        let i = choose|i: int| 0 <= i < b.len() && #[trigger] pattern_accepts(b[i], c);
        assert(pattern_accepts((a + b)[a.len() + i], c));
    }
}

fn any_in_list(list: &Option<Vec<String>>, candidate: &str) -> (r: bool)
    ensures
        r == any_pattern_accepts(pattern_list(*list), candidate@),
{
    match list {
        Some(v) => any_pattern_accepts_exec(v, candidate),
        None => false,
    }
}

/// Whether an archived path may be restored for the game `entry` on
/// `platform` (see `known_save_path`). A path that climbs out with `..`,
/// or is absolute, is refused whatever the patterns say.
pub fn matches_known_pattern(shrunk: &str, entry: &GameDbEntry, platform: Platform) -> (r: bool)
    ensures
        r == known_save_path(shrunk@, *entry, platform),
{
    if !is_plain_relative(shrunk, platform) {
        return false;
    }
    let files = &entry.files;
    let ghost w = pattern_list(files.windows);
    let ghost l = if platform is Linux { pattern_list(files.linux) } else { Seq::empty() };
    let ghost m = if platform is MacOs { pattern_list(files.mac) } else { Seq::empty() };
    proof {
        lemma_any_accepts_concat(w + l, m, shrunk@);
        lemma_any_accepts_concat(w, l, shrunk@);
    }
    if any_in_list(&files.windows, shrunk) {
        return true;
    }
    let in_linux = match platform {
        Platform::Linux => any_in_list(&files.linux, shrunk),
        _ => false,
    };
    if in_linux {
        return true;
    }
    match platform {
        Platform::MacOs => any_in_list(&files.mac, shrunk),
        _ => false,
    }
}

/// Decides, for each file of a backup archive, whether it is restored: true
/// exactly for the files whose path is a known save path of the game; the
/// others are refused.
pub fn restore_archive(entries: &Vec<ArchiveEntry>, db_entry: &GameDbEntry, platform: Platform) -> (r: Vec<bool>)
    ensures
        r@.len() == entries@.len(),
        forall|i: int| 0 <= i < r@.len() ==> r@[i] == known_save_path(#[trigger] entries@[i].shrunk_path@, *db_entry, platform),
{
    let mut out: Vec<bool> = Vec::new();
    let mut i: usize = 0;
    while i < entries.len()
        invariant
            i <= entries.len(),
            out@.len() == i,
            forall|j: int| 0 <= j < i ==> out@[j] == known_save_path(#[trigger] entries@[j].shrunk_path@, *db_entry, platform),
        decreases entries.len() - i,
    {
        let ok = matches_known_pattern(entries[i].shrunk_path.as_str(), db_entry, platform);
        out.push(ok);
        i = i + 1;
    }
    out
}

/// Picks the archive that restoring a game opens from its listing (newest
/// first): the newest one, or `NoBackupsFound` when there is none.
pub fn restore_game(backups: &Vec<Backup>) -> (r: Result<&Backup, Error>)
    ensures
        backups@.len() == 0 <==> r matches Err(Error::NoBackupsFound),
        backups@.len() > 0 <==> r is Ok,
        r is Ok ==> r->Ok_0 == &backups@[0],
{
    if backups.len() == 0 {
        Err(Error::NoBackupsFound)
    } else {
        Ok(&backups[0])
    }
}

/// A restore never writes outside the folders the game's paths resolve
/// against: every file it restores has only plain-name components, so none
/// with a `..` component, an absolute path or a drive prefix is restored.
pub proof fn lemma_restore_refuses_traversal(shrunk: Seq<char>, entry: GameDbEntry, platform: Platform, i: int)
    requires
        crate::paths::parent_dir_at(shrunk, platform, i)
            || crate::paths::starts_at_root(shrunk, platform)
            || crate::paths::has_drive_prefix(shrunk, platform),
    ensures
        !known_save_path(shrunk, entry, platform),
{
}

} // verus!

verus! {

/// A restore brings back the newest backup: the archive it opens from a
/// listing is at least as new as every backup found in the folder.
pub proof fn lemma_restore_opens_newest(listing: Seq<Backup>, entries: Seq<crate::backups::ScannedEntry>, b: Backup)
    requires
        crate::backups::newest_first(listing),
        listing.to_multiset() == crate::backups::scanned_backups(entries).to_multiset(),
        crate::backups::scanned_backups(entries).contains(b),
    ensures
        listing.len() > 0,
        listing[0].created >= b.created,
{
    broadcast use vstd::seq_lib::group_to_multiset_ensures;
    assert(crate::backups::scanned_backups(entries).to_multiset().count(b) > 0);
    assert(listing.contains(b));
    let k = choose|k: int| 0 <= k < listing.len() && listing[k] == b;
    assert(listing[0].created >= listing[k].created);
}

} // verus!

verus! {

/// A path with only plain-name components (no root, no drive prefix, no
/// leading `.` component, no `..` component; names such as `.factorio` are
/// plain) that some restore pattern of the game accepts is restored.
pub proof fn lemma_accepted_plain_path_is_restored(shrunk: Seq<char>, entry: GameDbEntry, platform: Platform, k: int)
    requires
        !(shrunk.len() > 0 && (shrunk[0] == '/' || (platform is Windows && shrunk[0] == '\\'))),
        !(platform is Windows && shrunk.len() >= 2
            && (('a' <= shrunk[0] && shrunk[0] <= 'z') || ('A' <= shrunk[0] && shrunk[0] <= 'Z')) && shrunk[1] == ':'),
        !(shrunk.len() >= 1 && shrunk[0] == '.' && (shrunk.len() == 1 || shrunk[1] == '/' || (platform is Windows && shrunk[1] == '\\'))),
        forall|i: int| 0 <= i && i + 1 < shrunk.len() && #[trigger] shrunk[i] == '.' && shrunk[i + 1] == '.'
            && (i == 0 || shrunk[i - 1] == '/' || (platform is Windows && shrunk[i - 1] == '\\'))
            ==> !(i + 2 == shrunk.len() || shrunk[i + 2] == '/' || (platform is Windows && shrunk[i + 2] == '\\')),
        0 <= k < restore_patterns(entry.files, platform).len(),
        crate::patterns::glob_pattern_is_valid(restore_patterns(entry.files, platform)[k]),
        crate::patterns::glob_pattern_matches(restore_patterns(entry.files, platform)[k], shrunk),
    ensures
        known_save_path(shrunk, entry, platform),
{
    crate::paths::lemma_plain_paths_are_accepted(shrunk, platform);
    assert(pattern_accepts(restore_patterns(entry.files, platform)[k], shrunk));
}

} // verus!

verus! {

/// Only declared save paths are restored: a path that is restored is
/// matched by a valid pattern from the game's Windows list, or from its
/// Linux list on Linux, or from its macOS list on macOS.
pub proof fn lemma_restored_path_is_declared(shrunk: Seq<char>, entry: GameDbEntry, platform: Platform)
    requires
        known_save_path(shrunk, entry, platform),
    ensures
        exists|p: Seq<char>| #![trigger crate::patterns::glob_pattern_matches(p, shrunk)]
            crate::patterns::glob_pattern_is_valid(p) && crate::patterns::glob_pattern_matches(p, shrunk) && (
            pattern_list(entry.files.windows).contains(p)
            || (platform is Linux && pattern_list(entry.files.linux).contains(p))
            || (platform is MacOs && pattern_list(entry.files.mac).contains(p))),
{
    let ps = restore_patterns(entry.files, platform);
    let k = choose|k: int| 0 <= k < ps.len() && #[trigger] pattern_accepts(ps[k], shrunk);
    let w = pattern_list(entry.files.windows);
    let l = if platform is Linux { pattern_list(entry.files.linux) } else { Seq::empty() };
    let m = if platform is MacOs { pattern_list(entry.files.mac) } else { Seq::empty() };
    let p = ps[k];
    if k < w.len() {
        assert(w[k] == p);
    } else if k < w.len() + l.len() {
        assert(l[k - w.len()] == p);
    } else {
        assert(m[k - w.len() - l.len()] == p);
    }
    assert(crate::patterns::glob_pattern_matches(p, shrunk));
}

} // verus!
