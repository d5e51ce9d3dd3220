//! Entries of the game database: where a game keeps its saves.
use vstd::prelude::*;
use crate::platform::Platform;

verus! {

/// Save-file patterns of one game, per platform family. Windows patterns
/// also apply to Windows games run under Wine/Proton on Unix.
pub struct GameFiles {
    pub windows: Option<Vec<String>>,
    pub linux: Option<Vec<String>>,
    pub mac: Option<Vec<String>>,
}

/// One game of the database.
pub struct GameDbEntry {
    pub files: GameFiles,
}

/// The patterns of an optional list, as strings.
pub open spec fn pattern_list(list: Option<Vec<String>>) -> Seq<Seq<char>> {
    match list {
        Some(v) => v@.map_values(|s: String| s@),
        None => Seq::empty(),
    }
}

/// The patterns that a restored path may match on `platform`: the Windows
/// ones always, then the Linux ones on Linux and the macOS ones on macOS.
pub open spec fn restore_patterns(files: GameFiles, platform: Platform) -> Seq<Seq<char>> {
    pattern_list(files.windows)
        + (if platform is Linux { pattern_list(files.linux) } else { Seq::empty() })
        + (if platform is MacOs { pattern_list(files.mac) } else { Seq::empty() })
}

/// The patterns that a backup collects on `platform`: the Windows ones on
/// Windows, or on Unix when the game runs in a Wine prefix; then the Linux
/// ones on Linux and the macOS ones on macOS.
pub open spec fn backup_patterns(files: GameFiles, platform: Platform, has_prefix: bool) -> Seq<Seq<char>> {
    (if platform is Windows || has_prefix { pattern_list(files.windows) } else { Seq::empty() })
        + (if platform is Linux { pattern_list(files.linux) } else { Seq::empty() })
        + (if platform is MacOs { pattern_list(files.mac) } else { Seq::empty() })
}

fn append_list(out: &mut Vec<String>, list: &Option<Vec<String>>)
    ensures
        final(out)@.map_values(|s: String| s@) == old(out)@.map_values(|s: String| s@) + pattern_list(*list),
{
    match list {
        Some(v) => {
            let ghost start = out@;
            let mut i: usize = 0;
            while i < v.len()
                invariant
                    i <= v.len(),
                    out@.map_values(|s: String| s@) == start.map_values(|s: String| s@) + v@.take(i as int).map_values(|s: String| s@),
                decreases v.len() - i,
            {
                let c = v[i].clone();
                let ghost prev = out@;
                out.push(c);
                assert(out@.map_values(|s: String| s@) =~= prev.map_values(|s: String| s@).push(c@));
                assert(v@.take(i + 1).map_values(|s: String| s@) =~= v@.take(i as int).map_values(|s: String| s@).push(v@[i as int]@));
                i = i + 1;
            }
            assert(v@.take(v.len() as int) =~= v@);
        }
        None => {
            assert(out@.map_values(|s: String| s@) =~= out@.map_values(|s: String| s@) + Seq::<Seq<char>>::empty());
        }
    }
}

/// The save-file patterns that a backup of a game collects on `platform`;
/// `has_prefix` tells whether the game runs in a Wine/Proton prefix.
pub fn backup_save_patterns(files: &GameFiles, platform: Platform, has_prefix: bool) -> (r: Vec<String>)
    ensures
        r@.map_values(|s: String| s@) == backup_patterns(*files, platform, has_prefix),
{
    let mut out: Vec<String> = Vec::new();
    assert(out@.map_values(|s: String| s@) =~= Seq::<Seq<char>>::empty());
    let none: Option<Vec<String>> = None;
    if platform.is_windows() || has_prefix {
        append_list(&mut out, &files.windows);
    } else {
        append_list(&mut out, &none);
    }
    match platform {
        Platform::Linux => append_list(&mut out, &files.linux),
        _ => append_list(&mut out, &none),
    }
    match platform {
        Platform::MacOs => append_list(&mut out, &files.mac),
        _ => append_list(&mut out, &none),
    }
    out
}

} // verus!

verus! {

/// Whatever a backup collects on a platform can be restored there: every
/// pattern a backup uses is one that a restore accepts paths by.
pub proof fn lemma_backup_patterns_are_restorable(files: GameFiles, platform: Platform, has_prefix: bool)
    ensures
        forall|i: int| 0 <= i < backup_patterns(files, platform, has_prefix).len()
            ==> restore_patterns(files, platform).contains(#[trigger] backup_patterns(files, platform, has_prefix)[i]),
{
    let b = backup_patterns(files, platform, has_prefix);
    let r = restore_patterns(files, platform);
    let w = pattern_list(files.windows);
    let l = if platform is Linux { pattern_list(files.linux) } else { Seq::empty() };
    let m = if platform is MacOs { pattern_list(files.mac) } else { Seq::empty() };
    let bw = if platform is Windows || has_prefix { w } else { Seq::empty() };
    assert forall|i: int| 0 <= i < b.len() implies r.contains(#[trigger] b[i]) by {
        if i < bw.len() {
            assert(r[i] == b[i]);
        } else if i < bw.len() + l.len() {
            assert(r[w.len() + (i - bw.len())] == b[i]);
        } else {
            assert(r[w.len() + l.len() + (i - bw.len() - l.len())] == b[i]);
        }
    }
}

} // verus!

verus! {

/// Which pattern lists a backup searches: the Windows list exactly on
/// Windows or for a game in a Wine prefix, the Linux list exactly on Linux,
/// the macOS list exactly on macOS; every pattern of a searched list is
/// searched, and nothing else is.
pub proof fn lemma_backup_pattern_lists(files: GameFiles, platform: Platform, has_prefix: bool, p: Seq<char>)
    ensures
        backup_patterns(files, platform, has_prefix).contains(p) <==> (
            ((platform is Windows || has_prefix) && pattern_list(files.windows).contains(p))
            || (platform is Linux && pattern_list(files.linux).contains(p))
            || (platform is MacOs && pattern_list(files.mac).contains(p))),
{
    let b = backup_patterns(files, platform, has_prefix);
    let w = if platform is Windows || has_prefix { pattern_list(files.windows) } else { Seq::empty() };
    let l = if platform is Linux { pattern_list(files.linux) } else { Seq::empty() };
    let m = if platform is MacOs { pattern_list(files.mac) } else { Seq::empty() };
    assert(b =~= w + l + m);
    if b.contains(p) {
        let k = choose|k: int| 0 <= k < b.len() && b[k] == p;
        if k < w.len() {
            assert(w[k] == p);
        } else if k < w.len() + l.len() {
            assert(l[k - w.len()] == p);
        } else {
            assert(m[k - w.len() - l.len()] == p);
        }
    }
    if w.contains(p) {
        let k = choose|k: int| 0 <= k < w.len() && w[k] == p;
        assert(b[k] == p);
    }
    if l.contains(p) {
        let k = choose|k: int| 0 <= k < l.len() && l[k] == p;
        assert(b[w.len() + k] == p);
    }
    if m.contains(p) {
        let k = choose|k: int| 0 <= k < m.len() && m[k] == p;
        assert(b[w.len() + l.len() + k] == p);
    }
}

/// The same for restoring: the Windows list always, the Linux list exactly
/// on Linux and the macOS list exactly on macOS.
pub proof fn lemma_restore_pattern_lists(files: GameFiles, platform: Platform, p: Seq<char>)
    ensures
        restore_patterns(files, platform).contains(p) <==> (
            pattern_list(files.windows).contains(p)
            || (platform is Linux && pattern_list(files.linux).contains(p))
            || (platform is MacOs && pattern_list(files.mac).contains(p))),
{
    let r = restore_patterns(files, platform);
    let w = pattern_list(files.windows);
    let l = if platform is Linux { pattern_list(files.linux) } else { Seq::empty() };
    let m = if platform is MacOs { pattern_list(files.mac) } else { Seq::empty() };
    if r.contains(p) {
        let k = choose|k: int| 0 <= k < r.len() && r[k] == p;
        if k < w.len() {
            assert(w[k] == p);
        } else if k < w.len() + l.len() {
            assert(l[k - w.len()] == p);
        } else {
            assert(m[k - w.len() - l.len()] == p);
        }
    }
    if w.contains(p) {
        let k = choose|k: int| 0 <= k < w.len() && w[k] == p;
        assert(r[k] == p);
    }
    if l.contains(p) {
        let k = choose|k: int| 0 <= k < l.len() && l[k] == p;
        assert(r[w.len() + k] == p);
    }
    if m.contains(p) {
        let k = choose|k: int| 0 <= k < m.len() && m[k] == p;
        assert(r[w.len() + l.len() + k] == p);
    }
}

} // verus!
