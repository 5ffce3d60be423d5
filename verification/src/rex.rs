//! Trusted wrapper around the `regex` crate. Matching is a pure function of
//! the pattern and the text, so the capture groups are given a name that the
//! rest of the library states its contracts over.

use vstd::prelude::*;

verus! {

/// The capture groups of `pattern` matched against `text`: `None` when the
/// pattern does not compile or does not match `text`; otherwise one entry
/// per capture group (entry 0 is the whole match), `None` for groups that
/// did not participate in the match.
pub uninterp spec fn spec_captures(pattern: Seq<char>, text: Seq<char>) -> Option<
    Seq<Option<Seq<char>>>,
>;

/// Relies on regex::Regex::new and regex::Regex::captures: for a fixed
/// pattern the capture groups are a pure function of the text matched.
#[verifier::external_body]
pub(crate) fn regex_captures(pattern: &str, text: &str) -> (r: Option<Vec<Option<String>>>)
    ensures
        r.deep_view() == spec_captures(pattern@, text@),
{
    let re = match regex::Regex::new(pattern) {
        Ok(re) => re,
        Err(_) => return None,
    };
    let caps = re.captures(text)?;
    Some((0..caps.len()).map(|i| caps.get(i).map(|m| m.as_str().to_string())).collect())
}

} // verus!
