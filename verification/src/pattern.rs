//! Trusted boundary to the pattern engines that body rules lean on: regular
//! expression matching and JSON-pointer lookup. Each result is deterministic
//! in its arguments, so it is given a name that the evaluator's contracts
//! speak of exactly.

use vstd::prelude::*;

verus! {

/// Whether `pattern` is a well-formed regular expression.
pub uninterp spec fn regex_ok(pattern: Seq<char>) -> bool;

/// Whether `pattern` matches anywhere in `text`; a pattern that does not
/// compile matches nothing.
pub uninterp spec fn regex_found(pattern: Seq<char>, text: Seq<u8>) -> bool;

/// The value that `body`, read as JSON, holds at the JSON-pointer `path`,
/// rendered as compact JSON text; nothing when `body` is not JSON or the
/// path has no value.
pub uninterp spec fn json_lookup(body: Seq<u8>, path: Seq<char>) -> Option<Seq<u8>>;

/// Relies on regex::bytes::Regex::new: whether the pattern compiles. The
/// result depends on the pattern alone.
#[verifier::external_body]
pub fn regex_is_valid(pattern: &str) -> (r: bool)
    ensures
        r == regex_ok(pattern@),
{
    regex::bytes::Regex::new(pattern).is_ok()
}

/// Relies on regex::bytes::Regex::new and Regex::is_match: whether the
/// pattern matches anywhere in the text. A pattern that does not compile
/// matches nothing, so a broken rule fails closed rather than erring.
#[verifier::external_body]
pub fn regex_matches(pattern: &str, text: &[u8]) -> (r: bool)
    ensures
        r == regex_found(pattern@, text@),
        !regex_ok(pattern@) ==> !r,
{
    match regex::bytes::Regex::new(pattern) {
        Ok(re) => re.is_match(text),
        Err(_) => false,
    }
}

/// Relies on serde_json::from_slice, serde_json::Value::pointer and the JSON
/// rendering of serde_json::Value: parses the body as JSON and renders the
/// value at the JSON-pointer path as compact JSON text. A body that is not
/// JSON, or a path that reaches no value, gives nothing.
#[verifier::external_body]
pub fn json_pointer_lookup(body: &[u8], path: &str) -> (r: Option<Vec<u8>>)
    ensures
        (match r {
            Some(v) => json_lookup(body@, path@) == Some(v@),
            None => json_lookup(body@, path@) is None,
        }),
{
    serde_json::from_slice::<serde_json::Value>(body)
        .ok()
        .and_then(|v| v.pointer(path).map(|x| x.to_string().into_bytes()))
}

} // verus!
