//! Backing up a game: which found files go into an archive, and whether
//! anything changed since the latest backup.
use vstd::prelude::*;
use crate::platform::Platform;
use crate::restore::ArchiveEntry;
use crate::text::to_owned_string;
use crate::gamedb::{GameDbEntry, GameFiles, backup_patterns, backup_save_patterns};
use crate::backups::{Backup, archive_file_name, archive_name, prune_backups, stale, newest_first, lemma_prune_keeps_newest};

verus! {

/// Why a backup failed.
pub enum Error {
    /// The backup folder could not be created; the message says why.
    DirectoryCreation(String),
}

impl Error {
    /// The message of the error.
    pub fn message(&self) -> (r: String)
        ensures
            self matches Error::DirectoryCreation(m) ==> r@ == "Failed to create backup directory: "@ + m@,
    {
        match self {
            Error::DirectoryCreation(m) => {
                let mut s = to_owned_string("Failed to create backup directory: ");
                vstd::string::StringExecFns::append(&mut s, m.as_str());
                s
            }
        }
    }
}

/// Files that a backup leaves out: Steam's cloud bookkeeping file
/// everywhere, and Finder's `.DS_Store` on macOS.
pub open spec fn is_ignored_file(file_name: Seq<char>, platform: Platform) -> bool {
    file_name == "steam_autocloud.vdf"@ || (platform is MacOs && file_name == ".DS_Store"@)
}

/// Whether a found file (by its file name) goes into the backup.
pub fn should_back_up_file(file_name: &str, platform: Platform) -> (r: bool)
    ensures
        r == !is_ignored_file(file_name@, platform),
{
    let name = to_owned_string(file_name);
    if name == to_owned_string("steam_autocloud.vdf") {
        return false;
    }
    match platform {
        Platform::MacOs => name != to_owned_string(".DS_Store"),
        _ => true,
    }
}

/// Whether two byte strings are equal.
pub fn bytes_equal(a: &Vec<u8>, b: &Vec<u8>) -> (r: bool)
    ensures
        r == (a@ == b@),
{
    if a.len() != b.len() {
        return false;
    }
    let mut i: usize = 0;
    while i < a.len()
        invariant
            a@.len() == b@.len(),
            i <= a@.len(),
            forall|j: int| 0 <= j < i ==> a@[j] == b@[j],
        decreases a.len() - i,
    {
        if a[i] != b[i] {
            return false;
        }
        i = i + 1;
    }
    assert(a@ =~= b@);
    true
}

/// The checksum recorded for `path` in an archive index: that of the first
/// entry with this path.
pub open spec fn recorded_checksum(index: Seq<ArchiveEntry>, path: Seq<char>) -> Option<Seq<u8>>
    decreases index.len(),
{
    if index.len() == 0 {
        None
    } else if index[0].shrunk_path@ == path {
        Some(index[0].checksum@)
    } else {
        recorded_checksum(index.drop_first(), path)
    }
}

/// A file counts as changed when there is no previous backup, when the
/// previous backup does not record its path, or when it recorded another
/// checksum.
pub open spec fn file_changed(previous: Option<Seq<ArchiveEntry>>, file: (Seq<char>, Seq<u8>)) -> bool {
    match previous {
        None => true,
        Some(index) => match recorded_checksum(index, file.0) {
            None => true,
            Some(c) => c != file.1,
        },
    }
}

pub open spec fn index_of(previous: Option<Vec<ArchiveEntry>>) -> Option<Seq<ArchiveEntry>> {
    match previous {
        Some(v) => Some(v@),
        None => None,
    }
}

fn lookup_checksum<'a>(index: &'a Vec<ArchiveEntry>, path: &String) -> (r: Option<&'a Vec<u8>>)
    ensures
        match r {
            Some(c) => recorded_checksum(index@, path@) == Some(c@),
            None => recorded_checksum(index@, path@) is None,
        },
{
    let mut i: usize = 0;
    assert(index@.skip(0) =~= index@);
    while i < index.len()
        invariant
            i <= index.len(),
            recorded_checksum(index@, path@) == recorded_checksum(index@.skip(i as int), path@),
        decreases index.len() - i,
    {
        assert(index@.skip(i as int).drop_first() =~= index@.skip(i + 1));
        assert(index@.skip(i as int)[0] == index@[i as int]);
        if index[i].shrunk_path == *path {
            return Some(&index[i].checksum);
        }
        i = i + 1;
    }
    assert(index@.skip(i as int).len() == 0);
    None
}

/// Whether the files about to be archived differ from the latest backup:
/// true exactly when some file changed (see `file_changed`).
pub fn backup_changed(previous: &Option<Vec<ArchiveEntry>>, current: &Vec<ArchiveEntry>) -> (r: bool)
    ensures
        r == exists|i: int| 0 <= i < current@.len() && #[trigger] file_changed(index_of(*previous), current@[i]@),
{
    let mut i: usize = 0;
    while i < current.len()
        invariant
            i <= current.len(),
            forall|j: int| 0 <= j < i ==> !#[trigger] file_changed(index_of(*previous), current@[j]@),
        decreases current.len() - i,
    {
        let file = &current[i];
        let changed = match previous {
            None => true,
            Some(index) => match lookup_checksum(index, &file.shrunk_path) {
                None => true,
                Some(c) => !bytes_equal(c, &file.checksum),
            },
        };
        if changed {
            assert(file_changed(index_of(*previous), current@[i as int]@));
            return true;
        }
        i = i + 1;
    }
    false
}

/// Within an index, entries with the same path carry the same checksum
/// (as when every path occurs once).
pub open spec fn consistent_checksums(index: Seq<ArchiveEntry>) -> bool {
    forall|i: int, j: int| 0 <= i < index.len() && 0 <= j < index.len() && #[trigger] index[i].shrunk_path@ == #[trigger] index[j].shrunk_path@
        ==> index[i].checksum@ == index[j].checksum@
}

proof fn lemma_recorded_checksum_at(index: Seq<ArchiveEntry>, k: int)
    requires
        0 <= k < index.len(),
        consistent_checksums(index),
    ensures
        recorded_checksum(index, index[k].shrunk_path@) == Some(index[k].checksum@),
    decreases index.len(),
{
    if index[0].shrunk_path@ != index[k].shrunk_path@ {
        let rest = index.drop_first();
        assert(rest[k - 1] == index[k]);
        assert(consistent_checksums(rest)) by {
            assert forall|i: int, j: int| 0 <= i < rest.len() && 0 <= j < rest.len() && #[trigger] rest[i].shrunk_path@ == #[trigger] rest[j].shrunk_path@
                implies rest[i].checksum@ == rest[j].checksum@ by {
                assert(rest[i] == index[i + 1]);
                assert(rest[j] == index[j + 1]);
            }
        }
        lemma_recorded_checksum_at(rest, k - 1);
    } else {
        assert(index[0].checksum@ == index[k].checksum@);
    }
}

/// Backing up again files that the latest backup already holds, unchanged,
/// changes nothing, so no new archive is kept: when every file (path and
/// checksum) is an entry of the latest index, and that index gives each path
/// one checksum. With no previous backup, any file at all is a change.
pub proof fn lemma_unchanged_files_make_no_backup(previous: Seq<ArchiveEntry>, current: Seq<(Seq<char>, Seq<u8>)>)
    requires
        consistent_checksums(previous),
        forall|i: int| 0 <= i < current.len() ==> exists|j: int| 0 <= j < previous.len() && previous[j]@ == #[trigger] current[i],
    ensures
        !(exists|i: int| 0 <= i < current.len() && #[trigger] file_changed(Some(previous), current[i])),
        current.len() > 0 ==> file_changed(None, current[0]),
{
    assert forall|i: int| 0 <= i < current.len() implies !#[trigger] file_changed(Some(previous), current[i]) by {
        let j = choose|j: int| 0 <= j < previous.len() && previous[j]@ == current[i];
        lemma_recorded_checksum_at(previous, j);
    }
}

} // verus!

verus! {

/// A file that the save patterns found: its path as the archive records it
/// (placeholders in), its file name, whether it is a folder, and its
/// checksum (empty for a folder).
pub struct FoundFile {
    pub shrunk_path: String,
    pub file_name: String,
    pub is_dir: bool,
    pub checksum: Vec<u8>,
}

/// What has happened so far in a backup.
pub enum BackupEvent {
    /// The backup begins.
    Start,
    /// The save patterns were searched: `found` lists what they matched, in
    /// order; `previous` is the index of the latest backup, if one could be
    /// read; `now_secs` is the current time in seconds since the Unix epoch.
    FilesFound { previous: Option<Vec<ArchiveEntry>>, found: Vec<FoundFile>, now_secs: u64 },
    /// The new archive was written; `listing` is the backup folder's listing
    /// afterwards, newest first.
    ArchiveWritten { listing: Vec<Backup> },
}

/// What a backup does next.
pub enum BackupAction {
    /// Search these save patterns (after expanding their placeholders).
    Search { patterns: Vec<String> },
    /// Stop: there is nothing new to back up (the backup answers `false`).
    Unchanged,
    /// Create the backup folder and write, under this file name, an archive
    /// holding these entries; then report the folder's listing.
    WriteArchive { file_name: String, entries: Vec<ArchiveEntry> },
    /// Remove these backups; the backup is done (it answers `true`).
    Prune { stale: Vec<Backup> },
}

/// A found file goes into the archive when it is not a folder and not an
/// ignored file.
pub open spec fn is_archived(f: FoundFile, platform: Platform) -> bool {
    !f.is_dir && !is_ignored_file(f.file_name@, platform)
}

/// The archive entries of the found files that go into the archive, in order.
pub open spec fn archived_entries(found: Seq<FoundFile>, platform: Platform) -> Seq<(Seq<char>, Seq<u8>)>
    decreases found.len(),
{
    if found.len() == 0 {
        Seq::empty()
    } else {
        let rest = archived_entries(found.drop_last(), platform);
        let f = found.last();
        if is_archived(f, platform) {
            rest.push((f.shrunk_path@, f.checksum@))
        } else {
            rest
        }
    }
}

/// Some of the entries changed since the latest backup.
pub open spec fn any_changed(previous: Option<Seq<ArchiveEntry>>, entries: Seq<(Seq<char>, Seq<u8>)>) -> bool {
    exists|i: int| 0 <= i < entries.len() && #[trigger] file_changed(previous, entries[i])
}

pub open spec fn entries_view(entries: Seq<ArchiveEntry>) -> Seq<(Seq<char>, Seq<u8>)> {
    entries.map_values(|e: ArchiveEntry| e@)
}

/// The step of a backup of the game `entry` on `platform` (with
/// `has_prefix` telling whether the game runs in a Wine prefix, and at most
/// `max_backups` kept, 0 meaning all) that follows `event`.
pub open spec fn backup_step(entry: GameDbEntry, platform: Platform, has_prefix: bool, max_backups: nat, event: BackupEvent, action: BackupAction) -> bool {
    match event {
        BackupEvent::Start => match action {
            BackupAction::Search { patterns } => patterns@.map_values(|s: String| s@) == backup_patterns(entry.files, platform, has_prefix),
            _ => false,
        },
        BackupEvent::FilesFound { previous, found, now_secs } => {
            let kept = archived_entries(found@, platform);
            if kept.len() > 0 && any_changed(index_of(previous), kept) {
                match action {
                    BackupAction::WriteArchive { file_name, entries } => file_name@ == archive_name(now_secs as nat)
                        && entries_view(entries@) == kept,
                    _ => false,
                }
            } else {
                action is Unchanged
            }
        },
        BackupEvent::ArchiveWritten { listing } => match action {
            BackupAction::Prune { stale: s } => s@ == stale(listing@, max_backups),
            _ => false,
        },
    }
}

fn archived(found: &Vec<FoundFile>, platform: Platform) -> (r: Vec<ArchiveEntry>)
    ensures
        entries_view(r@) == archived_entries(found@, platform),
{
    let mut out: Vec<ArchiveEntry> = Vec::new();
    let mut i: usize = 0;
    while i < found.len()
        invariant
            i <= found.len(),
            entries_view(out@) == archived_entries(found@.take(i as int), platform),
        decreases found.len() - i,
    {
        assert(found@.take(i + 1).drop_last() =~= found@.take(i as int));
        let f = &found[i];
        if !f.is_dir && should_back_up_file(f.file_name.as_str(), platform) {
            let e = ArchiveEntry { shrunk_path: f.shrunk_path.clone(), checksum: f.checksum.clone() };
            let ghost before = out@;
            out.push(e);
            assert(entries_view(out@) =~= entries_view(before).push(e@));
        }
        i = i + 1;
    }
    assert(found@.take(found.len() as int) =~= found@);
    out
}

/// Decides the next step of backing up a game (see `backup_step`): which
/// save patterns to search; then which found files go into a new archive,
/// under which name, or that nothing changed; then which old backups to
/// prune.
pub fn backup_game(entry: &GameDbEntry, platform: Platform, has_prefix: bool, max_backups: u8, event: BackupEvent) -> (r: BackupAction)
    ensures
        backup_step(*entry, platform, has_prefix, max_backups as nat, event, r),
{
    match event {
        BackupEvent::Start => {
            let patterns = backup_save_patterns(&entry.files, platform, has_prefix);
            assert(patterns@.map_values(|s: String| s@) == backup_patterns(entry.files, platform, has_prefix));
            BackupAction::Search { patterns }
        },
        BackupEvent::FilesFound { previous, found, now_secs } => {
            let entries = archived(&found, platform);
            if entries.len() > 0 && backup_changed(&previous, &entries) {
                proof {
                    let i = choose|i: int| 0 <= i < entries@.len() && #[trigger] file_changed(index_of(previous), entries@[i]@);
                    assert(entries_view(entries@)[i] == entries@[i]@);
                    assert(file_changed(index_of(previous), entries_view(entries@)[i]));
                }
                BackupAction::WriteArchive { file_name: archive_file_name(now_secs), entries }
            } else {
                proof {
                    if entries.len() > 0 && any_changed(index_of(previous), entries_view(entries@)) {
                        let i = choose|i: int| 0 <= i < entries_view(entries@).len() && #[trigger] file_changed(index_of(previous), entries_view(entries@)[i]);
                        assert(file_changed(index_of(previous), entries@[i]@));
                    }
                }
                BackupAction::Unchanged
            }
        },
        BackupEvent::ArchiveWritten { listing } => BackupAction::Prune { stale: prune_backups(listing, max_backups) },
    }
}

/// Windows save patterns take part in a backup on Unix only for a game that
/// runs in a Wine prefix: without one, the game's Windows patterns make no
/// difference to what is searched.
pub proof fn lemma_windows_patterns_need_prefix(files: GameFiles, platform: Platform)
    requires
        !(platform is Windows),
    ensures
        backup_patterns(files, platform, false)
            == backup_patterns(GameFiles { windows: None, linux: files.linux, mac: files.mac }, platform, false),
{
    let other = GameFiles { windows: None, linux: files.linux, mac: files.mac };
    assert(backup_patterns(files, platform, false) =~= backup_patterns(other, platform, false));
}

proof fn lemma_entry_from_kept_file(found: Seq<FoundFile>, platform: Platform, k: int) -> (i: int)
    requires
        0 <= k < archived_entries(found, platform).len(),
    ensures
        0 <= i < found.len(),
        is_archived(found[i], platform),
        archived_entries(found, platform)[k] == (found[i].shrunk_path@, found[i].checksum@),
    decreases found.len(),
{
    let rest = found.drop_last();
    let last = found[found.len() - 1];
    if k < archived_entries(rest, platform).len() {
        let i = lemma_entry_from_kept_file(rest, platform, k);
        assert(found[i] == rest[i]);
        i
    } else {
        found.len() - 1
    }
}

proof fn lemma_kept_file_has_entry(found: Seq<FoundFile>, platform: Platform, i: int) -> (k: int)
    requires
        0 <= i < found.len(),
        is_archived(found[i], platform),
    ensures
        0 <= k < archived_entries(found, platform).len(),
        archived_entries(found, platform)[k] == (found[i].shrunk_path@, found[i].checksum@),
    decreases found.len(),
{
    let rest = found.drop_last();
    if i < rest.len() {
        assert(rest[i] == found[i]);
        lemma_kept_file_has_entry(rest, platform, i)
    } else {
        archived_entries(found, platform).len() - 1
    }
}

/// The entry is that of a found file that goes into the archive.
pub open spec fn is_entry_of_kept_file(found: Seq<FoundFile>, platform: Platform, e: (Seq<char>, Seq<u8>)) -> bool {
    exists|i: int| 0 <= i < found.len() && is_archived(found[i], platform) && e == (found[i].shrunk_path@, found[i].checksum@)
}

/// An archive holds only regular files that are not ignored: each of its
/// entries is that of a found file which is not a folder, not
/// `steam_autocloud.vdf`, and (on macOS) not `.DS_Store`; and every such
/// found file has its entry.
pub proof fn lemma_archive_holds_kept_files(found: Seq<FoundFile>, platform: Platform)
    ensures
        forall|k: int| 0 <= k < archived_entries(found, platform).len()
            ==> is_entry_of_kept_file(found, platform, #[trigger] archived_entries(found, platform)[k]),
        forall|i: int| 0 <= i < found.len() && #[trigger] is_archived(found[i], platform)
            ==> archived_entries(found, platform).contains((found[i].shrunk_path@, found[i].checksum@)),
{
    assert forall|k: int| 0 <= k < archived_entries(found, platform).len()
        implies is_entry_of_kept_file(found, platform, #[trigger] archived_entries(found, platform)[k]) by {
        let i = lemma_entry_from_kept_file(found, platform, k);
    }
    assert forall|i: int| 0 <= i < found.len() && #[trigger] is_archived(found[i], platform)
        implies archived_entries(found, platform).contains((found[i].shrunk_path@, found[i].checksum@)) by {
        let k = lemma_kept_file_has_entry(found, platform, i);
    }
}

/// After a backup writes its archive, pruning leaves the newest backups: the
/// ones removed are all older than (or as old as) every one kept, and at
/// most `max_backups` remain (all of them when it is 0).
pub proof fn lemma_backup_prunes_oldest(entry: GameDbEntry, platform: Platform, has_prefix: bool, max_backups: nat, listing: Vec<Backup>, action: BackupAction)
    requires
        newest_first(listing@),
        backup_step(entry, platform, has_prefix, max_backups, BackupEvent::ArchiveWritten { listing }, action),
    ensures
        action matches BackupAction::Prune { stale: s } && {
            let kept = listing@.subrange(0, listing@.len() - s@.len());
            &&& kept + s@ == listing@
            &&& max_backups > 0 ==> kept.len() <= max_backups
            &&& forall|i: int, j: int| 0 <= i < kept.len() && 0 <= j < s@.len()
                ==> #[trigger] kept[i].created >= #[trigger] s@[j].created
        },
{
    lemma_prune_keeps_newest(listing@, max_backups);
}

} // verus!

verus! {

/// Backing up again when nothing changed keeps nothing: if every found
/// file that is not a folder and not ignored (`steam_autocloud.vdf`, and
/// `.DS_Store` on macOS) is, with its path and checksum, an entry of the
/// latest backup's index, and that index gives each path one checksum, the
/// backup stops without writing an archive or pruning.
pub proof fn lemma_second_backup_unchanged(
    entry: GameDbEntry,
    platform: Platform,
    has_prefix: bool,
    max_backups: nat,
    previous: Vec<ArchiveEntry>,
    found: Vec<FoundFile>,
    now_secs: u64,
    action: BackupAction,
)
    requires
        forall|j1: int, j2: int| 0 <= j1 < previous@.len() && 0 <= j2 < previous@.len()
            && #[trigger] previous@[j1].shrunk_path@ == #[trigger] previous@[j2].shrunk_path@
            ==> previous@[j1].checksum@ == previous@[j2].checksum@,
        forall|i: int| 0 <= i < found@.len() && !found@[i].is_dir && found@[i].file_name@ != "steam_autocloud.vdf"@
            && !(platform is MacOs && found@[i].file_name@ == ".DS_Store"@)
            ==> exists|j: int| 0 <= j < previous@.len() && previous@[j].shrunk_path@ == (#[trigger] found@[i]).shrunk_path@
                && previous@[j].checksum@ == found@[i].checksum@,
        backup_step(entry, platform, has_prefix, max_backups, BackupEvent::FilesFound { previous: Some(previous), found, now_secs }, action),
    ensures
        action is Unchanged,
{
    let kept = archived_entries(found@, platform);
    assert forall|k: int| 0 <= k < kept.len() implies exists|j: int| 0 <= j < previous@.len() && previous@[j]@ == #[trigger] kept[k] by {
        let i = lemma_entry_from_kept_file(found@, platform, k);
        let j = choose|j: int| 0 <= j < previous@.len() && previous@[j].shrunk_path@ == found@[i].shrunk_path@
            && previous@[j].checksum@ == found@[i].checksum@;
        assert(previous@[j]@ == kept[k]);
    }
    lemma_unchanged_files_make_no_backup(previous@, kept);
    assert(index_of(Some(previous)) == Some(previous@));
}

proof fn lemma_recorded_checksum_is_recorded(index: Seq<ArchiveEntry>, path: Seq<char>)
    ensures
        match recorded_checksum(index, path) {
            Some(c) => exists|j: int| 0 <= j < index.len() && index[j].shrunk_path@ == path && index[j].checksum@ == c,
            None => true,
        },
    decreases index.len(),
{
    if index.len() > 0 && index[0].shrunk_path@ != path {
        let rest = index.drop_first();
        lemma_recorded_checksum_is_recorded(rest, path);
        if let Some(c) = recorded_checksum(rest, path) {
            let j = choose|j: int| 0 <= j < rest.len() && rest[j].shrunk_path@ == path && rest[j].checksum@ == c;
            assert(index[j + 1] == rest[j]);
        }
    } else if index.len() > 0 {
        assert(index[0].shrunk_path@ == path);
    }
}

/// A backup that finds a file (not a folder, not ignored) which the latest
/// backup does not hold with that path and checksum, or that has no latest
/// backup at all, writes a new archive, named after the current time, that
/// holds this file. Every file is compared, not just some of them.
pub proof fn lemma_changed_file_forces_archive(
    entry: GameDbEntry,
    platform: Platform,
    has_prefix: bool,
    max_backups: nat,
    previous: Option<Vec<ArchiveEntry>>,
    found: Vec<FoundFile>,
    now_secs: u64,
    action: BackupAction,
    i: int,
)
    requires
        backup_step(entry, platform, has_prefix, max_backups, BackupEvent::FilesFound { previous, found, now_secs }, action),
        0 <= i < found@.len(),
        !found@[i].is_dir,
        found@[i].file_name@ != "steam_autocloud.vdf"@,
        !(platform is MacOs && found@[i].file_name@ == ".DS_Store"@),
        match previous {
            None => true,
            Some(p) => forall|j: int| 0 <= j < p@.len() ==> !(p@[j].shrunk_path@ == found@[i].shrunk_path@
                && p@[j].checksum@ == found@[i].checksum@),
        },
    ensures
        action matches BackupAction::WriteArchive { file_name, entries }
            && file_name@ == crate::text::decimal(now_secs as nat) + seq!['.', 'a', 'l', 'e', 't', 'h', 'e', 'i', 'a']
            && exists|k: int| 0 <= k < entries@.len() && entries@[k].shrunk_path@ == found@[i].shrunk_path@
                && entries@[k].checksum@ == found@[i].checksum@,
{
    let kept = archived_entries(found@, platform);
    let k = lemma_kept_file_has_entry(found@, platform, i);
    match previous {
        None => {}
        Some(p) => {
            lemma_recorded_checksum_is_recorded(p@, found@[i].shrunk_path@);
        }
    }
    assert(file_changed(index_of(previous), kept[k]));
    assert(any_changed(index_of(previous), kept));
    if let BackupAction::WriteArchive { file_name, entries } = action {
        assert(entries_view(entries@)[k] == entries@[k]@);
    }
}

/// The files of a new archive are exactly the found files that are not
/// folders and not ignored (`steam_autocloud.vdf`, and `.DS_Store` on
/// macOS), each with its path and checksum.
pub proof fn lemma_archive_entries_are_kept_files(
    entry: GameDbEntry,
    platform: Platform,
    has_prefix: bool,
    max_backups: nat,
    previous: Option<Vec<ArchiveEntry>>,
    found: Vec<FoundFile>,
    now_secs: u64,
    action: BackupAction,
)
    requires
        backup_step(entry, platform, has_prefix, max_backups, BackupEvent::FilesFound { previous, found, now_secs }, action),
    ensures
        action matches BackupAction::WriteArchive { file_name, entries } ==> {
            &&& forall|k: int| 0 <= k < entries@.len() ==> exists|i: int| 0 <= i < found@.len() && !found@[i].is_dir
                && found@[i].file_name@ != "steam_autocloud.vdf"@
                && !(platform is MacOs && found@[i].file_name@ == ".DS_Store"@)
                && (#[trigger] entries@[k]).shrunk_path@ == found@[i].shrunk_path@
                && entries@[k].checksum@ == found@[i].checksum@
            &&& forall|i: int| 0 <= i < found@.len() && !(#[trigger] found@[i]).is_dir
                && found@[i].file_name@ != "steam_autocloud.vdf"@
                && !(platform is MacOs && found@[i].file_name@ == ".DS_Store"@)
                ==> exists|k: int| 0 <= k < entries@.len() && entries@[k].shrunk_path@ == found@[i].shrunk_path@
                    && entries@[k].checksum@ == found@[i].checksum@
        },
{
    if let BackupAction::WriteArchive { file_name, entries } = action {
        let kept = archived_entries(found@, platform);
        if kept.len() > 0 && any_changed(index_of(previous), kept) {
            assert forall|k: int| 0 <= k < entries@.len() implies exists|i: int| 0 <= i < found@.len() && !found@[i].is_dir
                && found@[i].file_name@ != "steam_autocloud.vdf"@
                && !(platform is MacOs && found@[i].file_name@ == ".DS_Store"@)
                && (#[trigger] entries@[k]).shrunk_path@ == found@[i].shrunk_path@
                && entries@[k].checksum@ == found@[i].checksum@ by {
                assert(entries_view(entries@)[k] == entries@[k]@);
                let i = lemma_entry_from_kept_file(found@, platform, k);
            }
            assert forall|i: int| 0 <= i < found@.len() && !(#[trigger] found@[i]).is_dir
                && found@[i].file_name@ != "steam_autocloud.vdf"@
                && !(platform is MacOs && found@[i].file_name@ == ".DS_Store"@)
                implies exists|k: int| 0 <= k < entries@.len() && entries@[k].shrunk_path@ == found@[i].shrunk_path@
                    && entries@[k].checksum@ == found@[i].checksum@ by {
                let k = lemma_kept_file_has_entry(found@, platform, i);
                assert(entries_view(entries@)[k] == entries@[k]@);
            }
        }
    }
}

} // verus!

verus! {

/// A backup first searches exactly the applicable save patterns: the
/// game's Windows patterns on Windows or for a game in a Wine prefix, its
/// Linux patterns on Linux, its macOS patterns on macOS, and no others.
pub proof fn lemma_backup_searches_applicable_patterns(
    entry: GameDbEntry,
    platform: Platform,
    has_prefix: bool,
    max_backups: nat,
    action: BackupAction,
    p: Seq<char>,
)
    requires
        backup_step(entry, platform, has_prefix, max_backups, BackupEvent::Start, action),
    ensures
        action matches BackupAction::Search { patterns } && (patterns@.map_values(|s: String| s@).contains(p) <==> (
            ((platform is Windows || has_prefix) && crate::gamedb::pattern_list(entry.files.windows).contains(p))
            || (platform is Linux && crate::gamedb::pattern_list(entry.files.linux).contains(p))
            || (platform is MacOs && crate::gamedb::pattern_list(entry.files.mac).contains(p)))),
{
    crate::gamedb::lemma_backup_pattern_lists(entry.files, platform, has_prefix, p);
}

} // verus!
