//! Regular expressions, by their source text.

use regex::Regex;
use vstd::prelude::*;
use crate::text::texts;

verus! {

/// Whether text matches a pattern somewhere; nothing for a pattern that does
/// not compile.
pub uninterp spec fn pattern_matches(pattern: Seq<char>, text: Seq<char>) -> Option<bool>;

/// The matches of a pattern in a text, from the left and without overlap;
/// nothing for a pattern that does not compile.
pub uninterp spec fn pattern_finds(pattern: Seq<char>, text: Seq<char>) -> Option<Seq<Seq<char>>>;

/// The texts of an optional list of strings.
pub open spec fn opt_texts(o: Option<Vec<String>>) -> Option<Seq<Seq<char>>> {
    match o {
        Some(v) => Some(texts(v@)),
        None => None,
    }
}

/// Compiles `pattern` with `regex::Regex::new` and asks `Regex::is_match` for
/// `text`. The contract only names the outcome; an error of the compiler gives
/// `None`.
#[verifier::external_body]
pub(crate) fn is_match(pattern: &str, text: &str) -> (r: Option<bool>)
    ensures
        r == pattern_matches(pattern@, text@),
{
    match Regex::new(pattern) {
        Ok(re) => Some(re.is_match(text)),
        Err(_) => None,
    }
}

/// Compiles `pattern` with `regex::Regex::new` and collects what
/// `Regex::find_iter` finds in `text`, each match as its own string. The
/// contract only names the outcome; an error of the compiler gives `None`.
#[verifier::external_body]
pub(crate) fn find_all(pattern: &str, text: &str) -> (r: Option<Vec<String>>)
    ensures
        opt_texts(r) == pattern_finds(pattern@, text@),
{
    match Regex::new(pattern) {
        Ok(re) => Some(re.find_iter(text).map(|m| m.as_str().to_string()).collect()),
        Err(_) => None,
    }
}

} // verus!
