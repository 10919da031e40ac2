//! Trusted boundary around the `regex` crate. Compilation success, the
//! compiled pattern, match existence and the rewritten text are named here;
//! everything the engine proves about substitution goes through these names.

use vstd::prelude::*;

verus! {

#[verifier::external_type_specification]
#[verifier::external_body]
pub struct ExRegex(regex::Regex);

/// The pattern text a compiled regular expression holds, the one it was
/// built from.
pub uninterp spec fn pattern_of(re: regex::Regex) -> Seq<char>;

/// Whether `regex::Regex::new` accepts the pattern. Compilation is a
/// deterministic function of the pattern text alone.
pub uninterp spec fn regex_ok(pattern: Seq<char>) -> bool;

/// Whether the pattern matches anywhere in the text: what
/// `regex::Regex::is_match` would return. A deterministic function of
/// pattern and text.
pub uninterp spec fn has_match(pattern: Seq<char>, text: Seq<char>) -> bool;

/// What `regex::Regex::replace_all` returns when the pattern has a match in
/// the text: every non-overlapping match replaced, left to right, with the
/// replacement string (capture-group references in it expanded). A
/// deterministic function of pattern, text and replacement.
pub uninterp spec fn rewritten(pattern: Seq<char>, text: Seq<char>, rep: Seq<char>) -> Seq<char>;

/// What `regex::Regex::replace_all` returns on any text: the rewritten text
/// when there is a match, the text itself when there is none.
pub open spec fn regex_replace_all(pattern: Seq<char>, text: Seq<char>, rep: Seq<char>) -> Seq<
    char,
> {
    if has_match(pattern, text) {
        rewritten(pattern, text, rep)
    } else {
        text
    }
}

/// Relies on `regex::Regex::new`: compiles the pattern text, succeeding
/// exactly on the patterns the crate accepts, and the compiled value holds
/// that pattern. The crate's error value is dropped; the caller keeps the
/// pattern instead.
#[verifier::external_body]
pub(crate) fn compile(pattern: &str) -> (r: Option<regex::Regex>)
    ensures
        r is Some <==> regex_ok(pattern@),
        r is Some ==> pattern_of(r->0) == pattern@,
{
    regex::Regex::new(pattern).ok()
}

/// Relies on `regex::Regex::replace_all` with a string replacement: it
/// replaces every non-overlapping match, and its source returns the
/// haystack unchanged when there is no match.
#[verifier::external_body]
pub(crate) fn replace_all(re: &regex::Regex, text: &str, rep: &str) -> (r: String)
    ensures
        has_match(pattern_of(*re), text@) ==> r@ == rewritten(pattern_of(*re), text@, rep@),
        !has_match(pattern_of(*re), text@) ==> r@ == text@,
        r@ == regex_replace_all(pattern_of(*re), text@, rep@),
{
    re.replace_all(text, rep).into_owned()
}

} // verus!
