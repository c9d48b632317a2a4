//! Regular-expression primitives, provided by `lazy_regex` (the `regex`
//! engine it re-exports).
//!
//! What a regex matches is the engine's business and is not restated
//! here: each primitive's result is a named function of the pattern text
//! and the haystack. A pattern that fails to compile behaves like a
//! pattern that matches nothing.
use vstd::prelude::*;

use lazy_regex::Regex;

verus! {

/// Whether the regex written `pattern` matches somewhere in `haystack`.
pub uninterp spec fn regex_finds(pattern: Seq<char>, haystack: Seq<char>) -> bool;

/// Capture group 1 of the leftmost-first match of `pattern` in
/// `haystack`, when there is a match and the group took part in it.
pub uninterp spec fn regex_group1(pattern: Seq<char>, haystack: Seq<char>) -> Option<Seq<char>>;

/// `haystack` with the leftmost-first match of `pattern` removed.
pub uninterp spec fn regex_removed_first(pattern: Seq<char>, haystack: Seq<char>) -> Seq<char>;

/// `haystack` with every non-overlapping match of `pattern` removed.
pub uninterp spec fn regex_removed_all(pattern: Seq<char>, haystack: Seq<char>) -> Seq<char>;

/// `Regex::new(pattern)` then `Regex::is_match(haystack)`; `false` when
/// the pattern does not compile.
#[verifier::external_body]
pub(crate) fn is_match(pattern: &str, haystack: &str) -> (r: bool)
    ensures
        r == regex_finds(pattern@, haystack@),
{
    match Regex::new(pattern) {
        Ok(re) => re.is_match(haystack),
        Err(_) => false,
    }
}

/// `Regex::new(pattern)` then `Regex::captures(haystack)` and its group 1
/// as an owned string. `regex` documents that `captures` gives `None`
/// exactly when there is no match, so a group implies a match.
#[verifier::external_body]
pub(crate) fn captures_group1(pattern: &str, haystack: &str) -> (r: Option<String>)
    ensures
        r matches Some(g) ==> regex_group1(pattern@, haystack@) == Some(g@),
        r is None ==> regex_group1(pattern@, haystack@) is None,
        r is Some ==> regex_finds(pattern@, haystack@),
{
    let re = match Regex::new(pattern) {
        Ok(re) => re,
        Err(_) => return None,
    };
    match re.captures(haystack) {
        Some(caps) => caps.get(1).map(|m| m.as_str().to_string()),
        None => None,
    }
}

/// `Regex::new(pattern)` then `Regex::replace(haystack, "")`. `regex`
/// documents that the haystack comes back unchanged when nothing matches.
#[verifier::external_body]
pub(crate) fn remove_first(pattern: &str, haystack: &str) -> (r: String)
    ensures
        r@ == regex_removed_first(pattern@, haystack@),
        !regex_finds(pattern@, haystack@) ==> r@ == haystack@,
{
    match Regex::new(pattern) {
        Ok(re) => re.replace(haystack, "").into_owned(),
        Err(_) => haystack.to_string(),
    }
}

/// `Regex::new(pattern)` then `Regex::replace_all(haystack, "")`. `regex`
/// documents that the haystack comes back unchanged when nothing matches.
#[verifier::external_body]
pub(crate) fn remove_all(pattern: &str, haystack: &str) -> (r: String)
    ensures
        r@ == regex_removed_all(pattern@, haystack@),
        !regex_finds(pattern@, haystack@) ==> r@ == haystack@,
{
    match Regex::new(pattern) {
        Ok(re) => re.replace_all(haystack, "").into_owned(),
        Err(_) => haystack.to_string(),
    }
}

} // verus!
