//! File name patterns, evaluated by the `regex` crate.

use vstd::prelude::*;

verus! {

/// The error of the `regex` crate for a pattern that it does not compile.
#[verifier::external_type_specification]
#[verifier::external_body]
pub struct ExRegexError(regex::Error);

/// Whether `regex::Regex::new` compiles `pattern`: the pattern is well formed
/// and the compiled expression stays within the size limit that the crate
/// sets by default.
pub uninterp spec fn regex_accepts(pattern: Seq<char>) -> bool;

/// Whether the expression that `regex::Regex::new` compiles from `pattern`
/// matches somewhere in `haystack`, as `regex::Regex::is_match` reports it.
/// It says nothing of a pattern that is not compiled.
pub uninterp spec fn regex_is_match(pattern: Seq<char>, haystack: Seq<char>) -> bool;

/// Compiles `pattern` with `regex::Regex::new` and searches `haystack` with
/// `regex::Regex::is_match`.
///
/// Trusted: the pattern alone decides whether it compiles, and pattern and
/// haystack alone decide whether there is a match. The search is unanchored,
/// so a match of any part of the haystack counts.
#[verifier::external_body]
fn search(pattern: &str, haystack: &str) -> (found: Result<bool, regex::Error>)
    ensures
        found is Ok <==> regex_accepts(pattern@),
        found is Ok ==> found->Ok_0 == regex_is_match(pattern@, haystack@),
{
    match regex::Regex::new(pattern) {
        Ok(regex) => Ok(regex.is_match(haystack)),
        Err(error) => Err(error),
    }
}

/// `pattern` compiles and matches somewhere in `text`.
pub open spec fn pattern_matches(pattern: Seq<char>, text: Seq<char>) -> bool {
    regex_accepts(pattern) && regex_is_match(pattern, text)
}

/// `pattern` compiles and matches nowhere in `text`.
pub open spec fn pattern_compiles_without_match(pattern: Seq<char>, text: Seq<char>) -> bool {
    regex_accepts(pattern) && !regex_is_match(pattern, text)
}

/// Some pattern of the list matches `text`.
pub open spec fn any_pattern_matches(patterns: Seq<Seq<char>>, text: Seq<char>) -> bool {
    exists|i: int| 0 <= i < patterns.len() && pattern_matches(#[trigger] patterns[i], text)
}

/// Going through the list in order, the pattern at `i` is the first that does
/// not compile, and no pattern before it matches `text`.
pub open spec fn stops_at(patterns: Seq<Seq<char>>, text: Seq<char>, i: int) -> bool {
    &&& 0 <= i < patterns.len()
    &&& !regex_accepts(patterns[i])
    &&& forall|j: int| 0 <= j < i ==> pattern_compiles_without_match(#[trigger] patterns[j], text)
}

/// Going through the list in order up to the first match, every pattern compiles.
pub open spec fn patterns_usable(patterns: Seq<Seq<char>>, text: Seq<char>) -> bool {
    forall|i: int| !stops_at(patterns, text, i)
}

/// Tries the patterns in order against `text` and stops at the first match.
///
/// Gives `Ok` with whether a pattern matched, or `Err` with the position of
/// the pattern that does not compile, if the search reaches one.
pub fn find_match(patterns: &Vec<String>, text: &String) -> (found: Result<bool, usize>)
    ensures
        found is Ok <==> patterns_usable(patterns.deep_view(), text@),
        found matches Ok(hit) ==> hit == any_pattern_matches(patterns.deep_view(), text@),
        found matches Err(i) ==> stops_at(patterns.deep_view(), text@, i as int),
{
    let ghost list = patterns.deep_view();
    let mut i: usize = 0;
    while i < patterns.len()
        invariant
            i <= patterns.len(),
            list == patterns.deep_view(),
            forall|j: int| 0 <= j < i ==> pattern_compiles_without_match(#[trigger] list[j], text@),
        decreases patterns.len() - i,
    {
        assert(list[i as int] == patterns[i as int]@);
        match search(patterns[i].as_str(), text.as_str()) {
            Ok(hit) => {
                if hit {
                    return Ok(true);
                }
            },
            Err(_) => {
                assert(stops_at(list, text@, i as int));
                return Err(i);
            },
        }
        i += 1;
    }
    Ok(false)
}

} // verus!
