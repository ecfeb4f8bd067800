//! Support for glob patterns from the `glob` crate.
//!
//! File selection works on paths as plain strings.  The compiled
//! `glob::Pattern` is kept opaque; the contracts below speak of the pattern's
//! source text and of an abstract matching function of that text.

use vstd::prelude::*;

verus! {

#[verifier::external_type_specification]
#[verifier::external_body]
pub struct ExPattern(glob::Pattern);

#[verifier::external_type_specification]
#[verifier::external_body]
pub struct ExPatternError(glob::PatternError);

/// The source text that a `glob::Pattern` was compiled from.
pub uninterp spec fn pattern_source(p: glob::Pattern) -> Seq<char>;

/// Whether `glob::Pattern::new` accepts `s` as a valid glob.  Acceptance is
/// a function of the pattern text alone.
pub uninterp spec fn pattern_ok(s: Seq<char>) -> bool;

/// Whether the glob with source `pattern` matches the path `path`, under the
/// default match options.  The result is a function of the two texts alone.
pub uninterp spec fn pattern_matches(pattern: Seq<char>, path: Seq<char>) -> bool;

/// Relies on `glob::Pattern::new`: compiling succeeds exactly for valid glob
/// syntax, and the compiled pattern keeps the source text it was given.
#[verifier::external_body]
pub fn pattern_new(s: &str) -> (r: Result<glob::Pattern, glob::PatternError>)
    ensures
        r is Ok <==> pattern_ok(s@),
        r matches Ok(p) ==> pattern_source(p) == s@,
{
    glob::Pattern::new(s)
}

/// Relies on `glob::Pattern::matches`: whether the path matches the pattern,
/// as a function of the pattern's source text and the path.
#[verifier::external_body]
pub fn pattern_match(p: &glob::Pattern, path: &str) -> (r: bool)
    ensures
        r == pattern_matches(pattern_source(*p), path@),
{
    p.matches(path)
}

} // verus!
