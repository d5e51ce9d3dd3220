//! Path strings: which ones stay inside the folder they are resolved against,
//! their last component, and joining a folder with a name.
use vstd::prelude::*;
use vstd::string::*;
use crate::platform::{Platform, spec_is_separator, is_separator};
use crate::text::push_char;

verus! {

/// The characters of `s`, one per element.
pub fn chars_of(s: &str) -> (r: Vec<char>)
    ensures
        r@ == s@,
{
    let n = s.unicode_len();
    let mut out: Vec<char> = Vec::new();
    let mut i: usize = 0;
    while i < n
        invariant
            n == s@.len(),
            i <= n,
            out@ == s@.take(i as int),
        decreases n - i,
    {
        out.push(s.get_char(i));
        i = i + 1;
        assert(out@ =~= s@.take(i as int));
    }
    assert(s@.take(n as int) =~= s@);
    out
}

pub open spec fn is_ascii_alpha(c: char) -> bool {
    ('a' <= c && c <= 'z') || ('A' <= c && c <= 'Z')
}

/// The path begins at a root (`/`, or on Windows also `\`, which covers
/// UNC and verbatim prefixes).
pub open spec fn starts_at_root(s: Seq<char>, platform: Platform) -> bool {
    s.len() > 0 && spec_is_separator(platform, s[0])
}

/// The path begins with a Windows drive prefix such as `C:`.
pub open spec fn has_drive_prefix(s: Seq<char>, platform: Platform) -> bool {
    platform is Windows && s.len() >= 2 && is_ascii_alpha(s[0]) && s[1] == ':'
}

/// The path begins with a `.` component (`.` alone or `./...`), which is
/// kept as a current-directory component.
pub open spec fn starts_with_cur_dir(s: Seq<char>, platform: Platform) -> bool {
    s.len() >= 1 && s[0] == '.' && (s.len() == 1 || spec_is_separator(platform, s[1]))
}

/// A `..` component starts at index `i`.
pub open spec fn parent_dir_at(s: Seq<char>, platform: Platform, i: int) -> bool {
    &&& 0 <= i
    &&& i + 1 < s.len()
    &&& s[i] == '.'
    &&& s[i + 1] == '.'
    &&& (i == 0 || spec_is_separator(platform, s[i - 1]))
    &&& (i + 2 == s.len() || spec_is_separator(platform, s[i + 2]))
}

/// Every component of the path is a plain name: no root, no drive prefix,
/// no leading `.` and no `..` anywhere. Such a path, joined to a folder,
/// names something inside that folder.
pub open spec fn all_components_normal(s: Seq<char>, platform: Platform) -> bool {
    &&& !starts_at_root(s, platform)
    &&& !has_drive_prefix(s, platform)
    &&& !starts_with_cur_dir(s, platform)
    &&& forall|i: int| !#[trigger] parent_dir_at(s, platform, i)
}

fn is_ascii_alpha_exec(c: char) -> (r: bool)
    ensures
        r == is_ascii_alpha(c),
{
    ('a' <= c && c <= 'z') || ('A' <= c && c <= 'Z')
}

/// Whether every component of `path` is a plain name (see
/// `all_components_normal`): the path cannot climb out of, or escape, the
/// folder it is resolved against.
pub fn is_plain_relative(path: &str, platform: Platform) -> (r: bool)
    ensures
        r == all_components_normal(path@, platform),
{
    let cs = chars_of(path);
    let n = cs.len();
    if n > 0 && is_separator(platform, cs[0]) {
        return false;
    }
    if platform.is_windows() && n >= 2 && is_ascii_alpha_exec(cs[0]) && cs[1] == ':' {
        return false;
    }
    if n >= 1 && cs[0] == '.' && (n == 1 || is_separator(platform, cs[1])) {
        return false;
    }
    let mut i: usize = 0;
    while i < n
        invariant
            cs@ == path@,
            n == cs@.len(),
            i <= n,
            forall|j: int| 0 <= j < i ==> !#[trigger] parent_dir_at(path@, platform, j),
        decreases n - i,
    {
        if i + 1 < n && cs[i] == '.' && cs[i + 1] == '.' && (i == 0 || is_separator(platform, cs[i - 1]))
            && (i + 2 == n || is_separator(platform, cs[i + 2])) {
            assert(parent_dir_at(path@, platform, i as int));
            return false;
        }
        i = i + 1;
    }
    assert forall|j: int| !#[trigger] parent_dir_at(path@, platform, j) by {
        if 0 <= j < n {
        }
    }
    true
}

} // verus!

verus! {

/// The text after the last `/` of `s` (all of `s` when it has none).
pub open spec fn last_segment(s: Seq<char>) -> Seq<char>
    decreases s.len(),
{
    if s.len() == 0 || s.last() == '/' {
        Seq::empty()
    } else {
        last_segment(s.drop_last()).push(s.last())
    }
}

/// The last component of a Unix path when it is a plain name, as
/// `Path::file_name` gives it: trailing `/` and `.` components are passed
/// over, and a path ending in `..`, a root or nothing has none.
pub open spec fn unix_file_name(s: Seq<char>) -> Option<Seq<char>>
    decreases s.len(),
{
    if s.len() == 0 {
        None
    } else if s.last() == '/' {
        unix_file_name(s.drop_last())
    } else {
        let seg = last_segment(s);
        if seg == seq!['.'] {
            unix_file_name(s.drop_last())
        } else if seg == seq!['.', '.'] {
            None
        } else {
            Some(seg)
        }
    }
}

proof fn lemma_last_segment(t: Seq<char>, k: int)
    requires
        0 <= k <= t.len(),
        k == 0 || t[k - 1] == '/',
        forall|j: int| k <= j < t.len() ==> t[j] != '/',
    ensures
        last_segment(t) == t.subrange(k, t.len() as int),
    decreases t.len(),
{
    if t.len() == k {
        assert(t.subrange(k, t.len() as int) =~= Seq::<char>::empty());
        if t.len() > 0 {
            assert(t.last() == '/');
        }
    } else {
        lemma_last_segment(t.drop_last(), k);
        assert(t.subrange(k, t.len() as int) =~= t.drop_last().subrange(k, t.len() - 1).push(t.last()));
    }
}

/// The last component of a Unix path when it is a plain name (see
/// `unix_file_name`).
pub fn file_name_unix(path: &str) -> (r: Option<String>)
    ensures
        match r {
            Some(n) => unix_file_name(path@) == Some(n@),
            None => unix_file_name(path@) is None,
        },
{
    let cs = chars_of(path);
    let mut end: usize = cs.len();
    assert(path@.take(end as int) =~= path@);
    while end > 0
        invariant
            cs@ == path@,
            end <= cs@.len(),
            unix_file_name(path@) == unix_file_name(path@.take(end as int)),
        decreases end,
    {
        let ghost t = path@.take(end as int);
        if cs[end - 1] == '/' {
            assert(t.drop_last() =~= path@.take(end - 1));
            end = end - 1;
        } else {
            let mut start: usize = end - 1;
            while start > 0 && cs[start - 1] != '/'
                invariant
                    cs@ == path@,
                    start < end <= cs@.len(),
                    forall|j: int| start <= j < end ==> cs@[j] != '/',
                decreases start,
            {
                start = start - 1;
            }
            proof {
                lemma_last_segment(t, start as int);
            }
            let len = end - start;
            if len == 1 && cs[start] == '.' {
                assert(last_segment(t) =~= seq!['.']);
                assert(t.drop_last() =~= path@.take(end - 1));
                end = end - 1;
            } else if len == 2 && cs[start] == '.' && cs[start + 1] == '.' {
                assert(last_segment(t) =~= seq!['.', '.']);
                return None;
            } else {
                let mut out = String::new();
                let mut k: usize = start;
                while k < end
                    invariant
                        cs@ == path@,
                        start <= k <= end <= cs@.len(),
                        out@ == path@.subrange(start as int, k as int),
                    decreases end - k,
                {
                    push_char(&mut out, cs[k]);
                    k = k + 1;
                    assert(out@ =~= path@.subrange(start as int, k as int));
                }
                assert(last_segment(t) =~= out@);
                if len == 1 {
                    assert(out@ != seq!['.']) by {
                        assert(out@[0] != '.');
                    }
                } else if len == 2 {
                    assert(out@ != seq!['.', '.']) by {
                        assert(out@[0] != '.' || out@[1] != '.');
                    }
                }
                return Some(out);
            }
        }
    }
    None
}

} // verus!

verus! {

/// Hidden folders and other names are fine: a path that does not start with
/// a separator, has no drive prefix (on Windows), does not start with a `.`
/// component, and has no `..` component, has only plain-name components;
/// names that merely start with `.` (such as `.factorio`) or contain dots are
/// plain names.
pub proof fn lemma_plain_paths_are_accepted(s: Seq<char>, platform: Platform)
    requires
        !(s.len() > 0 && (s[0] == '/' || (platform is Windows && s[0] == '\\'))),
        !(platform is Windows && s.len() >= 2 && (('a' <= s[0] && s[0] <= 'z') || ('A' <= s[0] && s[0] <= 'Z')) && s[1] == ':'),
        !(s.len() >= 1 && s[0] == '.' && (s.len() == 1 || s[1] == '/' || (platform is Windows && s[1] == '\\'))),
        forall|i: int| 0 <= i && i + 1 < s.len() && #[trigger] s[i] == '.' && s[i + 1] == '.'
            && (i == 0 || s[i - 1] == '/' || (platform is Windows && s[i - 1] == '\\'))
            ==> !(i + 2 == s.len() || s[i + 2] == '/' || (platform is Windows && s[i + 2] == '\\')),
    ensures
        all_components_normal(s, platform),
{
    assert forall|i: int| !#[trigger] parent_dir_at(s, platform, i) by {
        if parent_dir_at(s, platform, i) {
            assert(s[i] == '.');
        }
    }
}

} // verus!

verus! {

/// The file name of a Unix path `folder/name` is `name`, for any folder and
/// any name that is not empty, holds no `/`, and is neither `.` nor `..`.
pub proof fn lemma_file_name_of_joined(folder: Seq<char>, name: Seq<char>)
    requires
        name.len() > 0,
        forall|i: int| 0 <= i < name.len() ==> name[i] != '/',
        name != seq!['.'],
        name != seq!['.', '.'],
    ensures
        unix_file_name(folder.push('/') + name) == Some(name),
{
    let s = folder.push('/') + name;
    assert(s.last() == name.last());
    lemma_last_segment(s, folder.len() + 1 as int);
    assert(s.subrange(folder.len() + 1 as int, s.len() as int) =~= name);
}

} // verus!

verus! {

/// A path is not plain relative when it starts at a root (a separator), has
/// a Windows drive prefix, starts with a `.` component, or has a `..`
/// component anywhere: such a path could escape the folder it is resolved
/// against.
pub proof fn lemma_escaping_paths_are_refused(s: Seq<char>, platform: Platform, i: int)
    ensures
        (s.len() > 0 && (s[0] == '/' || (platform is Windows && s[0] == '\\'))) ==> !all_components_normal(s, platform),
        (platform is Windows && s.len() >= 2 && (('a' <= s[0] && s[0] <= 'z') || ('A' <= s[0] && s[0] <= 'Z')) && s[1] == ':')
            ==> !all_components_normal(s, platform),
        (s.len() >= 1 && s[0] == '.' && (s.len() == 1 || s[1] == '/' || (platform is Windows && s[1] == '\\')))
            ==> !all_components_normal(s, platform),
        (0 <= i && i + 1 < s.len() && s[i] == '.' && s[i + 1] == '.'
            && (i == 0 || s[i - 1] == '/' || (platform is Windows && s[i - 1] == '\\'))
            && (i + 2 == s.len() || s[i + 2] == '/' || (platform is Windows && s[i + 2] == '\\')))
            ==> !all_components_normal(s, platform),
{
    if 0 <= i && i + 1 < s.len() && s[i] == '.' && s[i + 1] == '.'
        && (i == 0 || s[i - 1] == '/' || (platform is Windows && s[i - 1] == '\\'))
        && (i + 2 == s.len() || s[i + 2] == '/' || (platform is Windows && s[i + 2] == '\\')) {
        assert(parent_dir_at(s, platform, i));
    }
}

} // verus!
