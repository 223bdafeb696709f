//! Regular-expression matching, provided by the `regex` crate.
//!
//! Patterns are kept as text; each operation compiles its pattern with
//! `regex::Regex::new` and runs it. What a pattern matches is not restated
//! here: the results are named (`regex_accepts`, `regex_finds`,
//! `regex_captures`) and the library's contracts are stated over those names.

use vstd::prelude::*;

verus! {

/// The `regex` crate's compile error.
#[verifier::external_type_specification]
#[verifier::external_body]
pub struct ExRegexError(regex::Error);

/// `regex::Regex::new(pattern)` succeeds.
pub uninterp spec fn regex_accepts(pattern: Seq<char>) -> bool;

/// `Regex::is_match` of the compiled `pattern` on `text`.
pub uninterp spec fn regex_finds(pattern: Seq<char>, text: Seq<char>) -> bool;

/// For each successive non-overlapping match of `pattern` in `text`
/// (`Regex::captures_iter`), the text of capture group `group` (empty when
/// that group did not take part); nothing when the pattern does not compile.
pub uninterp spec fn regex_captures(pattern: Seq<char>, text: Seq<char>, group: nat) -> Seq<
    Seq<char>,
>;

/// Compiles `pattern` with `regex::Regex::new`; the error is the crate's own.
/// Claims only that success is what `regex_accepts` names.
#[verifier::external_body]
pub(crate) fn regex_compile(pattern: &str) -> (r: Result<(), regex::Error>)
    ensures
        r is Ok <==> regex_accepts(pattern@),
{
    regex::Regex::new(pattern).map(|_| ())
}

/// Compiles `pattern` and runs `Regex::is_match` on `text`; an invalid
/// pattern matches nothing. Claims that the result is `regex_finds` of the
/// two texts when the pattern compiles, and `false` otherwise.
#[verifier::external_body]
pub(crate) fn regex_is_match(pattern: &str, text: &str) -> (b: bool)
    ensures
        b == (regex_accepts(pattern@) && regex_finds(pattern@, text@)),
{
    match regex::Regex::new(pattern) {
        Ok(re) => re.is_match(text),
        Err(_) => false,
    }
}

/// Compiles `pattern` and collects capture group `group` of every match of
/// `Regex::captures_iter` on `text`. Claims that the texts, in order, are
/// `regex_captures` of the arguments.
#[verifier::external_body]
pub(crate) fn regex_capture_group(pattern: &str, text: &str, group: usize) -> (r: Vec<String>)
    ensures
        r@.len() == regex_captures(pattern@, text@, group as nat).len(),
        forall|i: int|
            0 <= i < r@.len() ==> #[trigger] r@[i]@ == regex_captures(pattern@, text@, group as nat)[i],
{
    match regex::Regex::new(pattern) {
        Ok(re) => re
            .captures_iter(text)
            .map(|c| c.get(group).map_or(String::new(), |m| m.as_str().to_owned()))
            .collect(),
        Err(_) => Vec::new(),
    }
}

} // verus!
