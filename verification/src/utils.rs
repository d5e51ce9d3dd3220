use vstd::prelude::*;
use vstd::string::*;
use crate::text::push_char;
use std::borrow::Cow;

verus! {

/// Characters that cannot appear in a backup folder name.
pub open spec fn is_invalid_name_char(c: char) -> bool {
    c == ':' || c == '/' || c == '\\'
}

/// `name` with every `:`, `/` and `\` removed, the other characters kept in order.
pub open spec fn sanitized(name: Seq<char>) -> Seq<char>
    decreases name.len(),
{
    if name.len() == 0 {
        Seq::empty()
    } else {
        let rest = sanitized(name.drop_last());
        if is_invalid_name_char(name.last()) {
            rest
        } else {
            rest.push(name.last())
        }
    }
}

/// The name holds one of the characters removed by sanitizing.
pub open spec fn has_invalid_name_char(name: Seq<char>) -> bool {
    exists|i: int| 0 <= i < name.len() && #[trigger] is_invalid_name_char(name[i])
}

fn contains_invalid_name_char(name: &str) -> (r: bool)
    ensures
        r == has_invalid_name_char(name@),
{
    let n = name.unicode_len();
    let mut i: usize = 0;
    while i < n
        invariant
            n == name@.len(),
            i <= n,
            forall|j: int| 0 <= j < i ==> !#[trigger] is_invalid_name_char(name@[j]),
        decreases n - i,
    {
        let c = name.get_char(i);
        if c == ':' || c == '/' || c == '\\' {
            assert(is_invalid_name_char(name@[i as int]));
            return true;
        }
        i = i + 1;
    }
    false
}

/// Turns a game name into a name usable as a single folder: removes the
/// characters `:`, `/` and `\`. A name without them is handed back as it
/// is, borrowed; only a name with them is copied.
pub fn sanitize_game_name<'a>(name: &'a str) -> (r: Cow<'a, str>)
    ensures
        r@ == sanitized(name@),
        r is Borrowed <==> !has_invalid_name_char(name@),
        r matches Cow::Borrowed(b) ==> b == name,
{
    if !contains_invalid_name_char(name) {
        proof {
            lemma_sanitize_laws(name@);
        }
        return Cow::Borrowed(name);
    }
    let n = name.unicode_len();
    let mut out = String::new();
    let mut i: usize = 0;
    while i < n
        invariant
            n == name@.len(),
            i <= n,
            out@ == sanitized(name@.take(i as int)),
        decreases n - i,
    {
        let c = name.get_char(i);
        assert(name@.take(i + 1).drop_last() =~= name@.take(i as int));
        if !(c == ':' || c == '/' || c == '\\') {
            push_char(&mut out, c);
        }
        i = i + 1;
    }
    assert(name@.take(n as int) =~= name@);
    Cow::Owned(out)
}

} // verus!

verus! {

/// A sanitized name holds none of `:`, `/` and `\`; sanitizing it again
/// changes nothing; and a name without those characters is its own
/// sanitized form.
pub proof fn lemma_sanitize_laws(name: Seq<char>)
    ensures
        forall|i: int| 0 <= i < sanitized(name).len() ==> !is_invalid_name_char(#[trigger] sanitized(name)[i]),
        sanitized(sanitized(name)) == sanitized(name),
        !has_invalid_name_char(sanitized(name)),
        (forall|i: int| 0 <= i < name.len() ==> !is_invalid_name_char(#[trigger] name[i])) ==> sanitized(name) == name,
        sanitized(name).len() <= name.len(),
    decreases name.len(),
{
    if name.len() > 0 {
        let rest = name.drop_last();
        lemma_sanitize_laws(rest);
        let s = sanitized(name);
        if !is_invalid_name_char(name.last()) {
            assert(s.drop_last() =~= sanitized(rest));
            assert(sanitized(s) == sanitized(s.drop_last()).push(s.last()));
            assert forall|i: int| 0 <= i < s.len() implies !is_invalid_name_char(#[trigger] s[i]) by {
                if i < s.len() - 1 {
                    assert(s[i] == sanitized(rest)[i]);
                }
            }
        }
        if forall|i: int| 0 <= i < name.len() ==> !is_invalid_name_char(#[trigger] name[i]) {
            assert forall|i: int| 0 <= i < rest.len() implies !is_invalid_name_char(#[trigger] rest[i]) by {
                assert(rest[i] == name[i]);
            }
            assert(!is_invalid_name_char(name[name.len() - 1]));
            assert(name =~= rest.push(name.last()));
        }
    }
}

} // verus!

verus! {

/// Sanitizing works character by character: it removes each `:`, `/` and
/// `\` and keeps every other character, in order. So the sanitized form of
/// a concatenation is the concatenation of the sanitized parts.
pub proof fn lemma_sanitize_by_character(s: Seq<char>, t: Seq<char>, c: char)
    ensures
        sanitized(s + t) == sanitized(s) + sanitized(t),
        sanitized(seq![c]) == (if c == ':' || c == '/' || c == '\\' { Seq::<char>::empty() } else { seq![c] }),
    decreases t.len(),
{
    assert(seq![c].drop_last() =~= Seq::<char>::empty());
    assert(seq![c].last() == c);
    assert(sanitized(Seq::<char>::empty()) =~= Seq::<char>::empty());
    if !is_invalid_name_char(c) {
        assert(Seq::<char>::empty().push(c) =~= seq![c]);
    }
    if t.len() == 0 {
        assert(s + t =~= s);
        assert(sanitized(s) + sanitized(t) =~= sanitized(s));
    } else {
        lemma_sanitize_by_character(s, t.drop_last(), c);
        assert((s + t).drop_last() =~= s + t.drop_last());
        assert((s + t).last() == t.last());
        if !is_invalid_name_char(t.last()) {
            assert(sanitized(s) + sanitized(t.drop_last()).push(t.last()) =~= (sanitized(s) + sanitized(t.drop_last())).push(t.last()));
        }
    }
}

} // verus!
