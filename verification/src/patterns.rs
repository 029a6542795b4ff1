//! Regular expressions: the calls into the regex crate, with what the
//! library knows of their results.
use vstd::prelude::*;

use crate::text::seq_contains;

verus! {

/// `text` with every match of the regular expression `pattern` replaced by
/// `replacement`, as the regex crate's `replace_all` computes it.
pub uninterp spec fn regex_replaced(pattern: Seq<char>, text: Seq<char>, replacement: Seq<char>) -> Seq<char>;

/// Whether `pattern` compiles as a regular expression of the regex crate.
pub uninterp spec fn regex_compiles(pattern: Seq<char>) -> bool;

/// Calls `regex::Regex::new(pattern)` and `replace_all(text, replacement)`;
/// the result is named `regex_replaced`. When the pattern does not compile
/// the text comes back unchanged.
#[verifier::external_body]
pub(crate) fn replace_all(pattern: &str, text: &str, replacement: &str) -> (r: String)
    ensures
        regex_compiles(pattern@) ==> r@ == regex_replaced(pattern@, text@, replacement@),
        !regex_compiles(pattern@) ==> r@ == text@,
{
    match regex::Regex::new(pattern) {
        Ok(re) => re.replace_all(text, replacement).into_owned(),
        Err(_) => text.to_string(),
    }
}

/// Replaces every match of `pattern`; the pattern is left alone if it does
/// not compile.
pub open spec fn replaced_or_kept(pattern: Seq<char>, text: Seq<char>, replacement: Seq<char>) -> Seq<char> {
    if regex_compiles(pattern) { regex_replaced(pattern, text, replacement) } else { text }
}

/// The text of capture group 1 in the first match of the regular expression
/// `pattern` in `text`, as the regex crate finds it; `None` when the
/// pattern does not compile, nothing matches, or group 1 took no part.
pub uninterp spec fn regex_group1(pattern: Seq<char>, text: Seq<char>) -> Option<Seq<char>>;

/// Calls `regex::Regex::new(pattern)` and, when it compiles, `captures(text)`
/// and the match of group 1; the result is named `regex_group1`. A match is
/// a part of the searched text.
#[verifier::external_body]
pub(crate) fn first_capture(pattern: &str, text: &str) -> (r: Option<String>)
    ensures
        match r {
            Some(g) => regex_group1(pattern@, text@) == Some(g@),
            None => regex_group1(pattern@, text@) is None,
        },
        r matches Some(g) ==> seq_contains(text@, g@),
{
    match regex::Regex::new(pattern) {
        Ok(re) => re.captures(text).and_then(|c| c.get(1)).map(|m| m.as_str().to_string()),
        Err(_) => None,
    }
}

/// `text` with the first match of the regular expression `pattern` replaced
/// by `replacement`, as the regex crate's `replace` computes it.
pub uninterp spec fn regex_replaced_first(pattern: Seq<char>, text: Seq<char>, replacement: Seq<char>) -> Seq<char>;

/// Calls `regex::Regex::new(pattern)` and `replace(text, replacement)`; the
/// result is named `regex_replaced_first`. When the pattern does not
/// compile the text comes back unchanged.
#[verifier::external_body]
pub(crate) fn replace_first(pattern: &str, text: &str, replacement: &str) -> (r: String)
    ensures
        regex_compiles(pattern@) ==> r@ == regex_replaced_first(pattern@, text@, replacement@),
        !regex_compiles(pattern@) ==> r@ == text@,
{
    match regex::Regex::new(pattern) {
        Ok(re) => re.replace(text, replacement).into_owned(),
        Err(_) => text.to_string(),
    }
}

/// Whether `pattern` compiles and matches somewhere in `text`, as the regex
/// crate's `is_match` decides.
pub uninterp spec fn regex_found(pattern: Seq<char>, text: Seq<char>) -> bool;

/// Calls `regex::Regex::new(pattern)` and, when it compiles, `is_match(text)`;
/// the result is named `regex_found`. A pattern that does not compile finds
/// nothing.
#[verifier::external_body]
pub(crate) fn is_match(pattern: &str, text: &str) -> (r: bool)
    ensures
        r == regex_found(pattern@, text@),
{
    match regex::Regex::new(pattern) {
        Ok(re) => re.is_match(text),
        Err(_) => false,
    }
}

} // verus!
