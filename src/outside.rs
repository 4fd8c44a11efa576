//! What the library takes from outside: lowercasing from std, and the
//! protection patterns compiled and matched by the regex crate.
use regex::RegexSet;
use vstd::prelude::*;

verus! {

#[verifier::external_type_specification]
#[verifier::external_body]
pub struct ExRegexSet(regex::RegexSet);

#[verifier::external_type_specification]
#[verifier::external_body]
pub struct ExRegexError(regex::Error);

/// The lowercase form of a text, as `str::to_lowercase` computes it.
pub uninterp spec fn lower_of(s: Seq<char>) -> Seq<char>;

/// Whether the regex crate accepts a list of patterns as a set.
pub uninterp spec fn rules_compile(patterns: Seq<Seq<char>>) -> bool;

/// The patterns a compiled set was built from, in order.
pub uninterp spec fn set_patterns(set: RegexSet) -> Seq<Seq<char>>;

/// Whether one of the patterns, compiled with the crate's default settings
/// and unanchored unless it says otherwise, matches somewhere in the haystack.
pub uninterp spec fn rules_match(patterns: Seq<Seq<char>>, haystack: Seq<char>) -> bool;

/// Whether a compiled set matches somewhere in the haystack; this depends
/// on how the set was built, not on its pattern texts alone.
pub uninterp spec fn set_is_match(set: RegexSet, haystack: Seq<char>) -> bool;

/// The texts of a list of strings.
pub open spec fn texts(v: Seq<String>) -> Seq<Seq<char>> {
    v.map_values(|p: String| p@)
}

/// Relies on `str::to_lowercase`: the result depends on the text alone.
#[verifier::external_body]
pub(crate) fn lowercase(s: &str) -> (r: String)
    ensures
        r@ == lower_of(s@),
{
    s.to_lowercase()
}

/// Relies on `regex::RegexSet::new`: it fails exactly on patterns the crate
/// refuses, the set it builds keeps the patterns as given (`patterns()`), and
/// it uses the builder's default settings, so the set matches as those
/// patterns do under them.
#[verifier::external_body]
pub(crate) fn compile_rules(patterns: &Vec<String>) -> (r: Result<RegexSet, regex::Error>)
    ensures
        r is Ok == rules_compile(texts(patterns@)),
        r matches Ok(set) ==> set_patterns(set) == texts(patterns@),
        r matches Ok(set) ==> forall|h: Seq<char>| #[trigger]
            set_is_match(set, h) == rules_match(texts(patterns@), h),
{
    RegexSet::new(patterns)
}

/// Relies on `regex::RegexSet::is_match`: true when the set, under the
/// settings it was built with, matches somewhere in the haystack.
#[verifier::external_body]
pub(crate) fn any_rule_matches(set: &RegexSet, haystack: &str) -> (r: bool)
    ensures
        r == set_is_match(*set, haystack@),
{
    set.is_match(haystack)
}

} // verus!
