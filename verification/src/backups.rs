//! Backup archives of a game: their file names, listing them newest first,
//! and which ones pruning removes.
use vstd::prelude::*;
use vstd::string::*;
use vstd::multiset::Multiset;
use crate::text::{push_char, push_decimal, decimal, lemma_decimal_roundtrip, parsed_unsigned, unsigned_digits};

verus! {

broadcast use {vstd::seq_lib::group_to_multiset_ensures, vstd::multiset::group_multiset_properties};

/// One backup archive found in a game's backup folder.
pub struct Backup {
    pub path: String,
    /// Creation time recorded in the archive's index, in seconds since the Unix epoch.
    pub created: u64,
    /// Size of the archive file in bytes.
    pub size: u64,
}

/// A file found in a game's backup folder, with what could be read of it:
/// `created` is the creation time from its archive index and `size` its
/// size on disk, each `None` where reading failed.
pub struct ScannedEntry {
    pub path: String,
    pub file_name: String,
    pub created: Option<u64>,
    pub size: Option<u64>,
}

/// The extension of backup archives, without its dot.
pub open spec fn archive_extension() -> Seq<char> {
    seq!['a', 'l', 'e', 't', 'h', 'e', 'i', 'a']
}

/// The file name's extension (the text after its last `.`, with something
/// before that `.`) is the archive extension. As the extension holds no `.`,
/// this is: the name ends with `.aletheia` and is longer than that.
pub open spec fn has_archive_extension(name: Seq<char>) -> bool {
    &&& name.len() > 9
    &&& name[name.len() - 9] == '.'
    &&& name.subrange(name.len() - 8, name.len() as int) == archive_extension()
}

/// Whether a file name has the extension of backup archives.
pub fn is_archive_file_name(name: &str) -> (r: bool)
    ensures
        r == has_archive_extension(name@),
{
    let n = name.unicode_len();
    if n <= 9 {
        return false;
    }
    let ext = ['a', 'l', 'e', 't', 'h', 'e', 'i', 'a'];
    if name.get_char(n - 9) != '.' {
        return false;
    }
    let mut i: usize = 0;
    while i < 8
        invariant
            n == name@.len(),
            n > 9,
            ext@ == archive_extension(),
            i <= 8,
            forall|j: int| 0 <= j < i ==> name@[n - 8 + j] == archive_extension()[j],
        decreases 8 - i,
    {
        if name.get_char(n - 8 + i) != ext[i] {
            assert(name@.subrange(n - 8, n as int)[i as int] != archive_extension()[i as int]);
            return false;
        }
        i = i + 1;
    }
    assert(name@.subrange(n - 8, n as int) =~= archive_extension());
    true
}

/// The file name of a backup archive created at `secs` seconds since the
/// Unix epoch: the number in decimal, then `.aletheia`.
pub open spec fn archive_name(secs: nat) -> Seq<char> {
    decimal(secs).push('.') + archive_extension()
}

/// The file name of a backup archive created at `secs` seconds since the
/// Unix epoch.
pub fn archive_file_name(secs: u64) -> (r: String)
    ensures
        r@ == archive_name(secs as nat),
{
    let mut out = String::new();
    push_decimal(&mut out, secs);
    push_char(&mut out, '.');
    let ext = ['a', 'l', 'e', 't', 'h', 'e', 'i', 'a'];
    let ghost base = out@;
    let mut i: usize = 0;
    while i < 8
        invariant
            ext@ == archive_extension(),
            i <= 8,
            out@ == base + archive_extension().take(i as int),
        decreases 8 - i,
    {
        push_char(&mut out, ext[i]);
        i = i + 1;
        assert(out@ =~= base + archive_extension().take(i as int));
    }
    assert(archive_extension().take(8) =~= archive_extension());
    assert(out@ =~= archive_name(secs as nat));
    out
}

/// The archives that a backup writes are the ones that listing finds: the
/// name of an archive has the archive extension, and the text before the
/// extension reads back as the creation time.
pub proof fn lemma_archive_name_is_listed(secs: u64)
    ensures
        has_archive_extension(archive_name(secs as nat)),
        parsed_unsigned(archive_name(secs as nat).subrange(0, archive_name(secs as nat).len() - 9), u64::MAX as nat)
            == Some(secs as nat),
{
    lemma_decimal_roundtrip(secs as nat);
    let name = archive_name(secs as nat);
    let d = decimal(secs as nat);
    assert(name.subrange(name.len() - 8, name.len() as int) =~= archive_extension());
    assert(name.subrange(0, name.len() - 9) =~= d);
    assert(unsigned_digits(d) == d);
}

/// Backups are ordered newest first: creation times never increase along
/// the sequence.
pub open spec fn newest_first(s: Seq<Backup>) -> bool {
    forall|i: int, j: int| 0 <= i <= j < s.len() ==> #[trigger] s[i].created >= #[trigger] s[j].created
}

/// A scanned file counts as a backup when its name has the archive
/// extension and both its index and its size could be read.
pub open spec fn is_listed(e: ScannedEntry) -> bool {
    has_archive_extension(e.file_name@) && e.created is Some && e.size is Some
}

pub open spec fn backup_of(e: ScannedEntry) -> Backup {
    Backup { path: e.path, created: e.created.unwrap(), size: e.size.unwrap() }
}

/// The backups among the scanned files, in scan order.
pub open spec fn scanned_backups(entries: Seq<ScannedEntry>) -> Seq<Backup>
    decreases entries.len(),
{
    if entries.len() == 0 {
        Seq::empty()
    } else {
        let rest = scanned_backups(entries.drop_last());
        if is_listed(entries.last()) {
            rest.push(backup_of(entries.last()))
        } else {
            rest
        }
    }
}

/// Reorders backups newest first (backups created at the same second may
/// come in either order).
pub fn sort_newest_first(v: Vec<Backup>) -> (r: Vec<Backup>)
    ensures
        newest_first(r@),
        forall|i: int, j: int| 0 <= i <= j < r@.len() ==> #[trigger] r@[i].created >= #[trigger] r@[j].created,
        r@.to_multiset() == v@.to_multiset(),
{
    let ghost orig = v@;
    let mut rest = v;
    let mut out: Vec<Backup> = Vec::new();
    while rest.len() > 0
        invariant
            out@.to_multiset().add(rest@.to_multiset()) == orig.to_multiset(),
            newest_first(out@),
            forall|i: int, j: int| 0 <= i < out@.len() && 0 <= j < rest@.len()
                ==> #[trigger] out@[i].created >= #[trigger] rest@[j].created,
        decreases rest.len(),
    {
        let mut m: usize = 0;
        let mut k: usize = 1;
        while k < rest.len()
            invariant
                m < rest.len(),
                1 <= k <= rest.len(),
                forall|j: int| 0 <= j < k ==> rest@[m as int].created >= #[trigger] rest@[j].created,
            decreases rest.len() - k,
        {
            if rest[k].created > rest[m].created {
                m = k;
            }
            k = k + 1;
        }
        let ghost before_rest = rest@;
        let ghost before_out = out@;
        let x = rest.remove(m);
        assert(rest@.to_multiset() == before_rest.to_multiset().remove(x));
        out.push(x);
        assert(out@.to_multiset() == before_out.to_multiset().insert(x));
        assert(before_rest.to_multiset().count(x) > 0) by {
            assert(before_rest.contains(x));
        }
        assert(out@.to_multiset().add(rest@.to_multiset()) =~= orig.to_multiset());
        assert forall|j: int| 0 <= j < rest@.len() implies x.created >= #[trigger] rest@[j].created by {
            if j < m {
                assert(rest@[j] == before_rest[j]);
            } else {
                assert(rest@[j] == before_rest[j + 1]);
            }
        }
        assert forall|i: int, j: int| 0 <= i < out@.len() && 0 <= j < rest@.len()
            implies #[trigger] out@[i].created >= #[trigger] rest@[j].created by {
            if j < m {
                assert(rest@[j] == before_rest[j]);
            } else {
                assert(rest@[j] == before_rest[j + 1]);
            }
        }
    }
    assert(rest@.to_multiset() =~= Multiset::empty());
    assert(out@.to_multiset().add(Multiset::empty()) =~= out@.to_multiset());
    out
}

/// Lists the backups of a game folder from what was scanned of its files:
/// the files with the archive extension whose index and size could be read,
/// newest first.
pub fn list_backups(entries: &Vec<ScannedEntry>) -> (r: Vec<Backup>)
    ensures
        newest_first(r@),
        forall|i: int, j: int| 0 <= i <= j < r@.len() ==> #[trigger] r@[i].created >= #[trigger] r@[j].created,
        r@.to_multiset() == scanned_backups(entries@).to_multiset(),
{
    let mut found: Vec<Backup> = Vec::new();
    let mut i: usize = 0;
    while i < entries.len()
        invariant
            i <= entries.len(),
            found@ == scanned_backups(entries@.take(i as int)),
        decreases entries.len() - i,
    {
        let e = &entries[i];
        assert(entries@.take(i + 1).drop_last() =~= entries@.take(i as int));
        if is_archive_file_name(e.file_name.as_str()) {
            match (e.created, e.size) {
                (Some(created), Some(size)) => {
                    found.push(Backup { path: e.path.clone(), created, size });
                }
                _ => {}
            }
        }
        i = i + 1;
    }
    assert(entries@.take(entries.len() as int) =~= entries@);
    sort_newest_first(found)
}

/// The backups that pruning removes from a listing (newest first) when at
/// most `max_backups` are kept; 0 keeps every backup.
pub open spec fn stale(backups: Seq<Backup>, max_backups: nat) -> Seq<Backup> {
    if max_backups == 0 || max_backups >= backups.len() {
        Seq::empty()
    } else {
        backups.subrange(max_backups as int, backups.len() as int)
    }
}

/// Splits off the backups that pruning removes: all but the first
/// `max_backups` of the listing; none when `max_backups` is 0.
pub fn prune_backups(backups: Vec<Backup>, max_backups: u8) -> (r: Vec<Backup>)
    ensures
        r@ == stale(backups@, max_backups as nat),
        max_backups == 0 ==> r@.len() == 0,
        max_backups > 0 ==> r@.len() == backups@.len() - (if (max_backups as nat) < backups@.len() { max_backups as nat } else { backups@.len() }),
        r@ == backups@.subrange(backups@.len() - r@.len(), backups@.len() as int),
{
    if max_backups == 0 || (max_backups as usize) >= backups.len() {
        return Vec::new();
    }
    let mut all = backups;
    let tail = all.split_off(max_backups as usize);
    tail
}

/// Pruning keeps the newest backups: after it, at most `max_backups` remain
/// (all of them when it is 0), every kept backup is at least as new as every
/// removed one, and kept and removed backups together are the listing.
pub proof fn lemma_prune_keeps_newest(backups: Seq<Backup>, max_backups: nat)
    requires
        newest_first(backups),
    ensures
        ({
            let removed = stale(backups, max_backups);
            let kept = backups.subrange(0, backups.len() - removed.len());
            &&& kept + removed == backups
            &&& max_backups > 0 ==> kept.len() <= max_backups
            &&& max_backups > 0 ==> kept.len() == (if max_backups < backups.len() { max_backups } else { backups.len() })
            &&& max_backups == 0 ==> kept == backups
            &&& forall|i: int, j: int| 0 <= i < kept.len() && 0 <= j < removed.len()
                ==> #[trigger] kept[i].created >= #[trigger] removed[j].created
        }),
{
    let removed = stale(backups, max_backups);
    let kept = backups.subrange(0, backups.len() - removed.len());
    assert(kept + removed =~= backups);
    assert forall|i: int, j: int| 0 <= i < kept.len() && 0 <= j < removed.len()
        implies #[trigger] kept[i].created >= #[trigger] removed[j].created by {
        assert(kept[i] == backups[i]);
        assert(removed[j] == backups[kept.len() + j]);
    }
}

} // verus!

verus! {

/// A file name has the archive extension exactly when it is some non-empty
/// text followed by `.aletheia`.
pub proof fn lemma_archive_extension_is_suffix(name: Seq<char>)
    ensures
        has_archive_extension(name) <==> (name.len() > 9
            && name.subrange(name.len() - 9, name.len() as int) == seq!['.', 'a', 'l', 'e', 't', 'h', 'e', 'i', 'a']),
{
    if name.len() > 9 {
        let tail = name.subrange(name.len() - 9, name.len() as int);
        if has_archive_extension(name) {
            assert(tail =~= seq!['.', 'a', 'l', 'e', 't', 'h', 'e', 'i', 'a']) by {
                assert forall|i: int| 1 <= i < 9 implies #[trigger] tail[i] == name.subrange(name.len() - 8, name.len() as int)[i - 1] by {}
            }
        }
        if tail == seq!['.', 'a', 'l', 'e', 't', 'h', 'e', 'i', 'a'] {
            assert(name[name.len() - 9] == tail[0]);
            assert(name.subrange(name.len() - 8, name.len() as int) =~= archive_extension()) by {
                assert forall|i: int| 0 <= i < 8 implies #[trigger] name.subrange(name.len() - 8, name.len() as int)[i] == tail[i + 1] by {}
            }
        }
    }
}

/// The backup is what was read of some scanned file with the archive
/// extension: its path, creation time and size.
pub open spec fn read_from(entries: Seq<ScannedEntry>, b: Backup) -> bool {
    exists|i: int| 0 <= i < entries.len()
        && has_archive_extension(entries[i].file_name@)
        && entries[i].created == Some(b.created)
        && entries[i].size == Some(b.size)
        && entries[i].path == b.path
}

/// Listing drops nothing and invents nothing: every scanned file with the
/// archive extension whose creation time and size were read is listed (with
/// that path, time and size), and every listed backup is such a file.
pub proof fn lemma_listing_holds_readable_archives(entries: Seq<ScannedEntry>)
    ensures
        forall|i: int| 0 <= i < entries.len() && has_archive_extension((#[trigger] entries[i]).file_name@)
            && entries[i].created is Some && entries[i].size is Some
            ==> scanned_backups(entries).contains(Backup { path: entries[i].path, created: entries[i].created->Some_0, size: entries[i].size->Some_0 }),
        forall|k: int| 0 <= k < scanned_backups(entries).len() ==> read_from(entries, #[trigger] scanned_backups(entries)[k]),
    decreases entries.len(),
{
    if entries.len() > 0 {
        let rest = entries.drop_last();
        lemma_listing_holds_readable_archives(rest);
        let sb = scanned_backups(entries);
        let sr = scanned_backups(rest);
        assert forall|i: int| 0 <= i < entries.len() && has_archive_extension((#[trigger] entries[i]).file_name@)
            && entries[i].created is Some && entries[i].size is Some
            implies sb.contains(Backup { path: entries[i].path, created: entries[i].created->Some_0, size: entries[i].size->Some_0 }) by {
            let b = Backup { path: entries[i].path, created: entries[i].created->Some_0, size: entries[i].size->Some_0 };
            if i < rest.len() {
                assert(rest[i] == entries[i]);
                assert(sr.contains(b));
                let k = choose|k: int| 0 <= k < sr.len() && sr[k] == b;
                assert(sb[k] == b);
            } else {
                assert(sb[sb.len() - 1] == b);
            }
        }
        assert forall|k: int| 0 <= k < sb.len() implies read_from(entries, #[trigger] sb[k]) by {
            if k < sr.len() {
                assert(sb[k] == sr[k]);
                assert(read_from(rest, sr[k]));
                let i = choose|i: int| 0 <= i < rest.len()
                    && has_archive_extension(rest[i].file_name@)
                    && rest[i].created == Some(sr[k].created)
                    && rest[i].size == Some(sr[k].size)
                    && rest[i].path == sr[k].path;
                assert(entries[i] == rest[i]);
            } else {
                assert(sb[k] == backup_of(entries.last()));
                assert(entries[entries.len() - 1] == entries.last());
            }
        }
    } else {
        assert(scanned_backups(entries).len() == 0);
    }
}

} // verus!
