//! The regular-expression engine behind the rules.
//!
//! Patterns are compiled and run by the `regex` crate. Nothing in this file
//! is proved: each function states what the crate documents of the call it
//! makes, and names what the documentation leaves to the engine.

use vstd::prelude::*;
use regex::{Regex, RegexSet};

verus! {

/// `regex::Regex`, a compiled pattern. Opaque to the verifier.
#[verifier::external_type_specification]
#[verifier::external_body]
pub struct ExRegex(Regex);

/// `regex::RegexSet`, several patterns compiled into one matcher. Opaque to
/// the verifier.
#[verifier::external_type_specification]
#[verifier::external_body]
pub struct ExRegexSet(RegexSet);

/// `regex::Error`, the reason why a pattern did not compile. Opaque to the
/// verifier.
#[verifier::external_type_specification]
#[verifier::external_body]
pub struct ExRegexError(regex::Error);

/// Whether `Regex::new` accepts `pattern`: it is valid syntax and compiles
/// within the engine's default size limit.
pub uninterp spec fn pattern_compiles(pattern: Seq<char>) -> bool;

/// The pattern that a compiled regex holds: the text it was compiled from,
/// which `Regex::as_str` returns.
pub uninterp spec fn regex_source(re: &Regex) -> Seq<char>;

/// Whether `RegexSet::new` accepts the patterns, in this order.
pub uninterp spec fn pattern_set_compiles(patterns: Seq<Seq<char>>) -> bool;

/// The patterns that a compiled set holds, in the order in which they were
/// given, as `RegexSet::patterns` returns them.
pub uninterp spec fn set_patterns(set: &RegexSet) -> Seq<Seq<char>>;

/// Whether `pattern`, as a member of a compiled set, matches somewhere in
/// `haystack`. Matching is case-sensitive and unanchored unless the pattern
/// anchors itself.
pub uninterp spec fn pattern_matches(pattern: Seq<char>, haystack: Seq<char>) -> bool;

/// What `Regex::captures` finds when the regex compiled from `pattern` is
/// run on `haystack`: `None` when there is no match, else one item per
/// capture group, the whole match first, each the matched text or `None`
/// for a group that took no part in the match.
pub uninterp spec fn captured_groups(pattern: Seq<char>, haystack: Seq<char>) -> Option<
    Seq<Option<Seq<char>>>,
>;

/// What `Regex::capture_names` yields for the regex compiled from
/// `pattern`: one item per capture group, the whole match first, each the
/// group's name or `None` for a group without one.
pub uninterp spec fn group_names(pattern: Seq<char>) -> Seq<Option<Seq<char>>>;

/// The content of each string of a list.
pub open spec fn strings_view(strings: Seq<String>) -> Seq<Seq<char>> {
    strings.map_values(|s: String| s@)
}

/// The content of each optional string of a list.
pub open spec fn optional_strings_view(strings: Seq<Option<String>>) -> Seq<Option<Seq<char>>> {
    strings.map_values(
        |s: Option<String>|
            match s {
                Some(s) => Some(s@),
                None => None,
            },
    )
}

/// Whether `hits` lists, in ascending order and each once, exactly the
/// positions of the patterns that match `haystack`.
pub open spec fn is_hit_list(patterns: Seq<Seq<char>>, haystack: Seq<char>, hits: Seq<usize>)
    -> bool {
    &&& forall|k: int|
        0 <= k < hits.len() ==> (#[trigger] hits[k]) < patterns.len() && pattern_matches(
            patterns[hits[k] as int],
            haystack,
        )
    &&& forall|j: int, k: int| 0 <= j < k < hits.len() ==> hits[j] < hits[k]
    &&& forall|i: int|
        0 <= i < patterns.len() && #[trigger] pattern_matches(patterns[i], haystack)
            ==> hits.contains(i as usize)
}

/// Wraps `Regex::new`. The call succeeds exactly on the patterns that the
/// engine accepts, and the compiled regex holds the pattern it was given.
#[verifier::external_body]
pub(crate) fn compile(pattern: &str) -> (result: Result<Regex, regex::Error>)
    ensures
        result is Ok <==> pattern_compiles(pattern@),
        result matches Ok(re) ==> regex_source(&re) == pattern@,
{
    Regex::new(pattern)
}

/// Wraps `RegexSet::new`. The call succeeds exactly on the lists that the
/// engine accepts, and the compiled set holds the patterns in the order given.
#[verifier::external_body]
pub(crate) fn compile_set(patterns: &Vec<String>) -> (result: Result<RegexSet, regex::Error>)
    ensures
        result is Ok <==> pattern_set_compiles(strings_view(patterns@)),
        result matches Ok(set) ==> set_patterns(&set) == strings_view(patterns@),
{
    RegexSet::new(patterns)
}

/// Wraps `RegexSet::matches` and the iterator over what it returns: the
/// positions of the patterns of the set that match `haystack`, ascending.
#[verifier::external_body]
pub(crate) fn set_matches(set: &RegexSet, haystack: &str) -> (hits: Vec<usize>)
    ensures
        forall|k: int|
            0 <= k < hits@.len() ==> (#[trigger] hits@[k]) < set_patterns(set).len()
                && pattern_matches(set_patterns(set)[hits@[k] as int], haystack@),
        forall|j: int, k: int| 0 <= j < k < hits@.len() ==> hits@[j] < hits@[k],
        forall|i: int|
            0 <= i < set_patterns(set).len() && #[trigger] pattern_matches(
                set_patterns(set)[i],
                haystack@,
            ) ==> hits@.contains(i as usize),
{
    set.matches(haystack).into_iter().collect()
}

/// Wraps `Regex::captures` and `Captures::iter`: runs the regex on
/// `haystack` and copies out the text of every capture group.
#[verifier::external_body]
pub(crate) fn captures(re: &Regex, haystack: &str) -> (groups: Option<Vec<Option<String>>>)
    ensures
        match groups {
            Some(found) => captured_groups(regex_source(re), haystack@) == Some(
                optional_strings_view(found@),
            ),
            None => captured_groups(regex_source(re), haystack@) is None,
        },
{
    re.captures(haystack).map(
        |caps| caps.iter().map(|group| group.map(|m| m.as_str().to_string())).collect(),
    )
}

/// Wraps `Regex::capture_names`: copies out the name of every capture group.
#[verifier::external_body]
pub(crate) fn capture_names(re: &Regex) -> (names: Vec<Option<String>>)
    ensures
        optional_strings_view(names@) == group_names(regex_source(re)),
{
    re.capture_names().map(|name| name.map(|n| n.to_string())).collect()
}

/// Wraps the `Display` text of `regex::Error`, the engine's own account of
/// why a pattern was refused. Nothing is claimed of the text.
#[verifier::external_body]
pub(crate) fn error_message(error: &regex::Error) -> (message: String) {
    error.to_string()
}

} // verus!
