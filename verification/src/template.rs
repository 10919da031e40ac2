//! Template placeholders: `{{name}}`, `{{version}}` and `{{date}}` inside a
//! search or replacement template are each replaced by their value; any
//! other text, including unrecognized placeholders, is left verbatim.

use vstd::prelude::*;
use crate::text;

verus! {

/// `t` with every `{{name}}` replaced by `name`.
pub open spec fn expand_name(t: Seq<char>, name: Seq<char>) -> Seq<char> {
    text::replace_all(t, "{{name}}"@, name)
}

/// `t` with every `{{version}}` replaced by `version`.
pub open spec fn expand_version(t: Seq<char>, version: Seq<char>) -> Seq<char> {
    text::replace_all(t, "{{version}}"@, version)
}

/// `t` with every `{{date}}` replaced by `date`.
pub open spec fn expand_date(t: Seq<char>, date: Seq<char>) -> Seq<char> {
    text::replace_all(t, "{{date}}"@, date)
}

/// A replacement template fully expanded: name, then version, then date.
pub open spec fn expand_all(t: Seq<char>, name: Seq<char>, version: Seq<char>, date: Seq<char>) -> Seq<char> {
    expand_date(expand_version(expand_name(t, name), version), date)
}

/// `t` with every occurrence of the literal `placeholder` replaced by
/// `value`.
fn expand_one(t: &str, placeholder: &str, value: &str) -> (r: String)
    requires
        placeholder@.len() > 0,
    ensures
        r@ == text::replace_all(t@, placeholder@, value@),
{
    let tv = text::str_to_chars(t);
    let pv = text::str_to_chars(placeholder);
    let vv = text::str_to_chars(value);
    let out = text::replace_all_chars(&tv, &pv, &vv);
    text::chars_to_string(&out)
}

/// `t` with every `{{name}}` replaced by `name`.
pub fn expand_name_exec(t: &str, name: &str) -> (r: String)
    ensures
        r@ == expand_name(t@, name@),
{
    proof {
        reveal_strlit("{{name}}");
    }
    expand_one(t, "{{name}}", name)
}

/// `t` with every `{{version}}` replaced by `version`.
pub fn expand_version_exec(t: &str, version: &str) -> (r: String)
    ensures
        r@ == expand_version(t@, version@),
{
    proof {
        reveal_strlit("{{version}}");
    }
    expand_one(t, "{{version}}", version)
}

/// `t` with every `{{date}}` replaced by `date`.
pub fn expand_date_exec(t: &str, date: &str) -> (r: String)
    ensures
        r@ == expand_date(t@, date@),
{
    proof {
        reveal_strlit("{{date}}");
    }
    expand_one(t, "{{date}}", date)
}

/// A replacement template fully expanded: name, then version, then date.
pub fn expand_all_exec(t: &str, name: &str, version: &str, date: &str) -> (r: String)
    ensures
        r@ == expand_all(t@, name@, version@, date@),
{
    let a = expand_name_exec(t, name);
    let b = expand_version_exec(a.as_str(), version);
    expand_date_exec(b.as_str(), date)
}

} // verus!
