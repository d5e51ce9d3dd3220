//! Glob patterns of save locations, compiled and matched by the `glob` crate.
use vstd::prelude::*;

verus! {

#[verifier::external_type_specification]
#[verifier::external_body]
pub struct ExGlobPattern(glob::Pattern);

#[verifier::external_type_specification]
#[verifier::external_body]
pub struct ExGlobPatternError(glob::PatternError);

/// Whether `glob::Pattern::new` accepts `pattern` (for the separators of the
/// target the crate is built for).
pub uninterp spec fn glob_pattern_is_valid(pattern: Seq<char>) -> bool;

/// Whether the pattern compiled from `pattern` matches `candidate` under
/// `glob`'s default match options (case-sensitive, `*` also matching
/// separators, leading dots not special).
pub uninterp spec fn glob_pattern_matches(pattern: Seq<char>, candidate: Seq<char>) -> bool;

/// A compiled glob pattern together with the text it was compiled from.
pub struct CompiledPattern {
    source: String,
    compiled: glob::Pattern,
}

impl CompiledPattern {
    pub closed spec fn source(self) -> Seq<char> {
        self.source@
    }
}

/// Compiles a glob pattern.
///
/// Trusted: calls `glob::Pattern::new`; the contract claims that it succeeds
/// exactly on the patterns named valid by `glob_pattern_is_valid`, and keeps
/// the source text beside the compiled pattern.
#[verifier::external_body]
pub fn compile_pattern(pattern: &str) -> (r: Result<CompiledPattern, glob::PatternError>)
    ensures
        r is Ok <==> glob_pattern_is_valid(pattern@),
        r matches Ok(p) ==> p.source() == pattern@,
{
    match glob::Pattern::new(pattern) {
        Ok(compiled) => Ok(CompiledPattern { source: pattern.to_string(), compiled }),
        Err(e) => Err(e),
    }
}

/// Matches a string against a compiled pattern.
///
/// Trusted: calls `glob::Pattern::matches` (default match options); the
/// contract claims that the answer is `glob_pattern_matches` of the
/// pattern's source text and the candidate.
#[verifier::external_body]
pub fn pattern_matches(pattern: &CompiledPattern, candidate: &str) -> (r: bool)
    ensures
        r == glob_pattern_matches(pattern.source(), candidate@),
{
    pattern.compiled.matches(candidate)
}

/// A valid pattern that matches the candidate.
pub open spec fn pattern_accepts(pattern: Seq<char>, candidate: Seq<char>) -> bool {
    glob_pattern_is_valid(pattern) && glob_pattern_matches(pattern, candidate)
}

/// Compiles `pattern` and matches `candidate` against it; an invalid
/// pattern matches nothing.
pub fn pattern_accepts_exec(pattern: &str, candidate: &str) -> (r: bool)
    ensures
        r == pattern_accepts(pattern@, candidate@),
{
    match compile_pattern(pattern) {
        Ok(p) => pattern_matches(&p, candidate),
        Err(_) => false,
    }
}

/// Some pattern of the list accepts the candidate.
pub open spec fn any_pattern_accepts(patterns: Seq<Seq<char>>, candidate: Seq<char>) -> bool {
    exists|i: int| 0 <= i < patterns.len() && #[trigger] pattern_accepts(patterns[i], candidate)
}

/// Whether some pattern of the list accepts `candidate`.
pub fn any_pattern_accepts_exec(patterns: &Vec<String>, candidate: &str) -> (r: bool)
    ensures
        r == any_pattern_accepts(patterns@.map_values(|s: String| s@), candidate@),
{
    let ghost ps = patterns@.map_values(|s: String| s@);
    let mut i: usize = 0;
    while i < patterns.len()
        invariant
            ps == patterns@.map_values(|s: String| s@),
            i <= patterns.len(),
            forall|j: int| 0 <= j < i ==> !#[trigger] pattern_accepts(ps[j], candidate@),
        decreases patterns.len() - i,
    {
        if pattern_accepts_exec(patterns[i].as_str(), candidate) {
            assert(pattern_accepts(ps[i as int], candidate@));
            return true;
        }
        i = i + 1;
    }
    false
}

} // verus!
