use vstd::prelude::*;
use aho_corasick::{AhoCorasick, BuildError};

verus! {

#[verifier::external_type_specification]
#[verifier::external_body]
pub struct ExAhoCorasick(AhoCorasick);

#[verifier::external_type_specification]
#[verifier::external_body]
pub struct ExBuildError(BuildError);

/// The patterns an automaton holds, in the order it was built from
/// (a pattern's index is the pattern id that the automaton reports).
pub uninterp spec fn automaton_patterns(ac: AhoCorasick) -> Seq<Seq<char>>;

/// Whether an automaton was built with leftmost-first match semantics rather
/// than the standard semantics of `AhoCorasick::new`.
pub uninterp spec fn automaton_leftmost_first(ac: AhoCorasick) -> bool;

/// Whether `AhoCorasick::new` succeeds on these patterns.
pub uninterp spec fn standard_builds(patterns: Seq<Seq<char>>) -> bool;

/// The pattern ids, in order, of the overlapping matches that
/// `AhoCorasick::find_overlapping_iter` reports for a haystack.
pub uninterp spec fn overlapping_match_ids(patterns: Seq<Seq<char>>, haystack: Seq<char>) -> Seq<
    usize,
>;

/// The text that `AhoCorasick::replace_all` returns: every match that
/// `find_iter` reports replaced by the replacement of its pattern id.
pub uninterp spec fn automaton_replace_all(
    patterns: Seq<Seq<char>>,
    leftmost_first: bool,
    haystack: Seq<char>,
    replacements: Seq<Seq<char>>,
) -> Seq<char>;

/// `needle` occurs as a contiguous part of `hay`.
pub open spec fn occurs_in(needle: Seq<char>, hay: Seq<char>) -> bool {
    exists|k: int|
        0 <= k && k + needle.len() <= hay.len() && #[trigger] hay.subrange(k, k + needle.len())
            == needle
}

/// Some pattern occurs in `hay`.
pub open spec fn any_occurs(patterns: Seq<Seq<char>>, hay: Seq<char>) -> bool {
    exists|i: int| 0 <= i < patterns.len() && occurs_in(#[trigger] patterns[i], hay)
}

/// Calls `AhoCorasick::new`. Claims: it succeeds exactly when
/// `standard_builds` holds, and the automaton holds the given patterns in
/// order, with standard semantics.
#[verifier::external_body]
pub(crate) fn build_standard(patterns: &Vec<String>) -> (r: Result<AhoCorasick, BuildError>)
    ensures
        (r is Ok) == standard_builds(patterns.deep_view()),
        r matches Ok(ac) ==> automaton_patterns(ac) == patterns.deep_view()
            && !automaton_leftmost_first(ac),
{
    AhoCorasick::new(patterns)
}

/// Calls `AhoCorasick::find_overlapping_iter` and keeps the pattern id of
/// each match. Its documentation: it reports "all possible matches at every
/// position"; it panics for an automaton with leftmost semantics. Claims: the
/// ids are `overlapping_match_ids` of the automaton's patterns, each is a valid
/// pattern index, and a pattern's id is reported exactly when the pattern
/// occurs in the text.
#[verifier::external_body]
pub(crate) fn find_all_match_ids(ac: &AhoCorasick, text: &str) -> (ids: Vec<usize>)
    requires
        !automaton_leftmost_first(*ac),
    ensures
        ids@ == overlapping_match_ids(automaton_patterns(*ac), text@),
        forall|i: int|
            0 <= i < ids@.len() ==> (#[trigger] ids@[i] as int) < automaton_patterns(*ac).len(),
        forall|k: int|
            0 <= k < automaton_patterns(*ac).len() ==> (ids@.contains(k as usize) <==> occurs_in(
                #[trigger] automaton_patterns(*ac)[k],
                text@,
            )),
{
    let mut ids = Vec::new();
    for m in ac.find_overlapping_iter(text) {
        ids.push(m.pattern().as_usize());
    }
    ids
}

/// Calls `AhoCorasick::is_match`, which is true exactly when some pattern
/// matches the text at some position.
#[verifier::external_body]
pub(crate) fn has_match(ac: &AhoCorasick, text: &str) -> (r: bool)
    ensures
        r == any_occurs(automaton_patterns(*ac), text@),
{
    ac.is_match(text)
}

/// Calls `AhoCorasick::replace_all`; its result is named `automaton_replace_all`.
/// The call panics unless there is one replacement per pattern.
#[verifier::external_body]
pub(crate) fn replace_all_matches(ac: &AhoCorasick, text: &str, replacements: &Vec<String>) -> (r:
    String)
    requires
        replacements@.len() == automaton_patterns(*ac).len(),
    ensures
        r@ == automaton_replace_all(
            automaton_patterns(*ac),
            automaton_leftmost_first(*ac),
            text@,
            replacements.deep_view(),
        ),
{
    ac.replace_all(text, replacements.as_slice())
}

/// Calls `BuildError`'s `Display` to describe why an automaton could not be built.
#[verifier::external_body]
pub(crate) fn describe_build_error(e: &BuildError) -> String {
    e.to_string()
}

} // verus!
