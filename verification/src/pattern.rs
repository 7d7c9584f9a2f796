//! Regular-expression matching through the `regex` crate. What a pattern
//! matches is the crate's own definition; the library states its results
//! over two names for it.
use vstd::prelude::*;

verus! {

/// Whether `regex::Regex::new` accepts the pattern.
pub uninterp spec fn regex_compiles(pattern: Seq<char>) -> bool;

/// Whether the compiled pattern matches somewhere in the text
/// (`Regex::is_match`).
pub uninterp spec fn regex_finds(pattern: Seq<char>, text: Seq<char>) -> bool;

/// Compiles `pattern` with `regex::Regex::new` and, when that succeeds,
/// reports `Regex::is_match` on `text`. Claimed: `None` exactly when the
/// pattern does not compile, else the match result; both depend on the two
/// strings alone.
#[verifier::external_body]
pub fn regex_matches(pattern: &str, text: &str) -> (r: Option<bool>)
    ensures
        r == (if regex_compiles(pattern@) {
            Some(regex_finds(pattern@, text@))
        } else {
            None
        }),
{
    match regex::Regex::new(pattern) {
        Ok(re) => Some(re.is_match(text)),
        Err(_) => None,
    }
}

/// The pattern anchored to the whole text: `^(?:pattern)$`.
pub open spec fn anchored(pattern: Seq<char>) -> Seq<char> {
    "^(?:"@ + pattern + ")$"@
}

/// Whether `pattern` compiles once anchored and then matches all of `text`:
/// `None` when it does not compile.
pub fn full_match(pattern: &str, text: &str) -> (r: Option<bool>)
    ensures
        r == (if regex_compiles(anchored(pattern@)) {
            Some(regex_finds(anchored(pattern@), text@))
        } else {
            None
        }),
{
    let whole = crate::report::cat3("^(?:", pattern, ")$");
    regex_matches(whole.as_str(), text)
}

} // verus!
