//! Regular expressions, matched by the `regex` crate.

use vstd::prelude::*;

verus! {

/// The text of the leftmost match of the expression `pattern` in `text`, as
/// `regex::Regex::find` reports it; `None` where nothing matches or `pattern`
/// is not a valid expression.
pub uninterp spec fn leftmost_match(pattern: Seq<char>, text: Seq<char>) -> Option<Seq<char>>;

/// The text of the first capture group in the leftmost match of `pattern` in
/// `text`, as `regex::Regex::captures` reports it; `None` where nothing
/// matches, the group took no part in the match, or `pattern` is not a valid
/// expression.
pub uninterp spec fn first_group(pattern: Seq<char>, text: Seq<char>) -> Option<Seq<char>>;

/// `text` with every match of `pattern` removed, as `regex::Regex::replace_all`
/// with an empty replacement leaves it; `text` itself where `pattern` is not a
/// valid expression.
pub uninterp spec fn without_matches(pattern: Seq<char>, text: Seq<char>) -> Seq<char>;

/// The view of an optional string.
pub open spec fn opt_view(s: Option<String>) -> Option<Seq<char>> {
    match s {
        Some(s) => Some(s@),
        None => None,
    }
}

/// Compiles `pattern` with `regex::Regex::new` and searches `text` with
/// `Regex::find`. Trusted: the result is what `leftmost_match` names, a
/// function of the two texts alone.
#[verifier::external_body]
pub(crate) fn find_match(pattern: &str, text: &str) -> (m: Option<String>)
    ensures
        opt_view(m) == leftmost_match(pattern@, text@),
{
    let re = regex::Regex::new(pattern).ok()?;
    re.find(text).map(|m| m.as_str().to_string())
}

/// Compiles `pattern` with `regex::Regex::new` and takes group 1 of
/// `Regex::captures` on `text`. Trusted: the result is what `first_group`
/// names, a function of the two texts alone.
#[verifier::external_body]
pub(crate) fn find_group(pattern: &str, text: &str) -> (m: Option<String>)
    ensures
        opt_view(m) == first_group(pattern@, text@),
{
    let re = regex::Regex::new(pattern).ok()?;
    re.captures(text)?.get(1).map(|m| m.as_str().to_string())
}

/// Compiles `pattern` with `regex::Regex::new` and removes its matches from
/// `text` with `Regex::replace_all`. Trusted: the result is what
/// `without_matches` names, a function of the two texts alone.
#[verifier::external_body]
pub(crate) fn remove_matches(pattern: &str, text: &str) -> (r: String)
    ensures
        r@ == without_matches(pattern@, text@),
{
    match regex::Regex::new(pattern) {
        Ok(re) => re.replace_all(text, "").into_owned(),
        Err(_) => text.to_string(),
    }
}

/// Whether `pattern` matches anywhere in `text`.
pub open spec fn is_match(pattern: Seq<char>, text: Seq<char>) -> bool {
    leftmost_match(pattern, text) is Some
}

/// Whether `pattern` matches anywhere in `text`.
pub fn has_match(pattern: &str, text: &str) -> (b: bool)
    ensures
        b == is_match(pattern@, text@),
{
    find_match(pattern, text).is_some()
}

} // verus!
