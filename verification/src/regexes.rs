//! Support for regular-expression sets from the `regex` crate.
//!
//! The compiled `regex::RegexSet` is kept opaque; the contracts below speak
//! of the sequence of pattern texts the set was built from and of an abstract
//! matching function of a pattern text and a haystack.

use vstd::prelude::*;

verus! {

#[verifier::external_type_specification]
#[verifier::external_body]
pub struct ExRegexSet(regex::RegexSet);

#[verifier::external_type_specification]
#[verifier::external_body]
pub struct ExRegexError(regex::Error);

/// The pattern texts a `regex::RegexSet` was built from, in order.
pub uninterp spec fn regex_set_patterns(s: regex::RegexSet) -> Seq<Seq<char>>;

/// Whether `regex::RegexSet::new` accepts this sequence of pattern texts.
/// Acceptance is a function of the texts alone.
pub uninterp spec fn regex_set_ok(patterns: Seq<Seq<char>>) -> bool;

/// Whether the regular expression with source `pattern` matches somewhere in
/// `text`.  The result is a function of the two texts alone.
pub uninterp spec fn regex_matches(pattern: Seq<char>, text: Seq<char>) -> bool;

/// The indices, in ascending order, of the patterns that match `line`.
pub open spec fn match_indices(patterns: Seq<Seq<char>>, line: Seq<char>) -> Seq<int>
    decreases patterns.len(),
{
    if patterns.len() == 0 {
        Seq::empty()
    } else {
        match_indices(patterns.drop_last(), line) + if regex_matches(patterns.last(), line) {
            seq![patterns.len() - 1]
        } else {
            Seq::empty()
        }
    }
}

/// Every reported index lies below `patterns.len()` and its pattern matches.
pub proof fn lemma_match_indices_bounds(patterns: Seq<Seq<char>>, line: Seq<char>)
    ensures
        forall|k: int|
            0 <= k < match_indices(patterns, line).len() ==> {
                let j = #[trigger] match_indices(patterns, line)[k];
                0 <= j < patterns.len() && regex_matches(patterns[j], line)
            },
    decreases patterns.len(),
{
    if patterns.len() == 0 {
    } else {
        lemma_match_indices_bounds(patterns.drop_last(), line);
        assert forall|k: int| 0 <= k < match_indices(patterns, line).len() implies {
            let j = #[trigger] match_indices(patterns, line)[k];
            0 <= j < patterns.len() && regex_matches(patterns[j], line)
        } by {
            let pre = match_indices(patterns.drop_last(), line);
            if k < pre.len() {
                assert(match_indices(patterns, line)[k] == pre[k]);
                assert(patterns.drop_last()[pre[k]] == patterns[pre[k]]);
            } else {
                assert(match_indices(patterns, line)[k] == patterns.len() - 1);
            }
        }
    }
}

/// An index is reported if and only if it names a pattern that matches
/// `line`.
pub proof fn lemma_match_indices_iff(patterns: Seq<Seq<char>>, line: Seq<char>, j: int)
    ensures
        match_indices(patterns, line).contains(j) <==> (0 <= j < patterns.len() && regex_matches(
            patterns[j],
            line,
        )),
    decreases patterns.len(),
{
    if patterns.len() == 0 {
    } else {
        lemma_match_indices_iff(patterns.drop_last(), line, j);
        let pre = match_indices(patterns.drop_last(), line);
        let whole = match_indices(patterns, line);
        if 0 <= j < patterns.len() - 1 {
            assert(patterns.drop_last()[j] == patterns[j]);
        }
        if pre.contains(j) {
            let k = choose|k: int| 0 <= k < pre.len() && pre[k] == j;
            assert(whole[k] == j);
        }
        if regex_matches(patterns.last(), line) {
            assert(whole[whole.len() - 1] == patterns.len() - 1);
        }
        if whole.contains(j) {
            let k = choose|k: int| 0 <= k < whole.len() && whole[k] == j;
            if k < pre.len() {
                assert(pre[k] == j);
            }
        }
    }
}

/// Relies on `regex::RegexSet::new`: building succeeds exactly when every
/// pattern is a valid regular expression (within the default limits), and
/// the set then consists of the given patterns in order.
#[verifier::external_body]
pub fn regex_set_new(patterns: &Vec<String>) -> (r: Result<regex::RegexSet, regex::Error>)
    ensures
        r is Ok <==> regex_set_ok(patterns.deep_view()),
        r matches Ok(s) ==> regex_set_patterns(s) == patterns.deep_view(),
{
    regex::RegexSet::new(patterns)
}

/// Relies on `regex::RegexSet::matches`: the indices of the patterns that
/// match somewhere in `line`, in ascending order.
#[verifier::external_body]
pub fn regex_set_matches(set: &regex::RegexSet, line: &str) -> (r: Vec<usize>)
    ensures
        r@.map_values(|u: usize| u as int) == match_indices(regex_set_patterns(*set), line@),
        forall|k: int|
            0 <= k < r@.len() ==> regex_matches(
                regex_set_patterns(*set)[r@[k] as int],
                line@,
            ),
{
    set.matches(line).into_iter().collect()
}

} // verus!
