//! Taking JSON text apart and writing JSON strings, by way of `serde_json`.
//!
//! Each function here hands one piece of a JSON text back as plain values.
//! What `serde_json` returns is a function of the text alone, so each result
//! has a name of its own that the contracts of the callers speak of.

use vstd::prelude::*;

verus! {

/// The elements of the JSON array that a text writes, each as JSON text;
/// nothing when the text is no JSON array.
pub uninterp spec fn json_items_of(text: Seq<char>) -> Option<Seq<Seq<char>>>;

/// The members of the JSON object that a text writes, each as its key and
/// its value as JSON text; nothing when the text is no JSON object.
pub uninterp spec fn json_members_of(text: Seq<char>) -> Option<Seq<(Seq<char>, Seq<char>)>>;

/// The number that a text writes as a JSON number that is a `u64`; nothing
/// for any other text.
pub uninterp spec fn json_u64_of(text: Seq<char>) -> Option<u64>;

/// The content of the JSON string that a text writes; nothing when the text
/// is no JSON string.
pub uninterp spec fn json_text_of(text: Seq<char>) -> Option<Seq<char>>;

/// The JSON string that writes the given content, quotes and escapes
/// included.
pub uninterp spec fn json_quoted(content: Seq<char>) -> Seq<char>;

/// The characters of each string of a sequence.
pub open spec fn texts_of(v: Seq<String>) -> Seq<Seq<char>> {
    v.map_values(|s: String| s@)
}

/// The characters of each pair of strings of a sequence.
pub open spec fn pairs_of(v: Seq<(String, String)>) -> Seq<(Seq<char>, Seq<char>)> {
    v.map_values(|p: (String, String)| (p.0@, p.1@))
}

/// Calls `serde_json::from_str` for a vector of `serde_json::Value` and
/// `serde_json::to_string` on each element. Trusted: the result is
/// [`json_items_of`] of the text.
#[verifier::external_body]
pub(crate) fn json_items(text: &str) -> (r: Option<Vec<String>>)
    ensures
        match r {
            Some(v) => json_items_of(text@) == Some(texts_of(v@)),
            None => json_items_of(text@).is_none(),
        },
{
    let items: Vec<serde_json::Value> = serde_json::from_str(text).ok()?;
    items.iter().map(|item| serde_json::to_string(item).ok()).collect()
}

/// Calls `serde_json::from_str` for a `serde_json::Map` and
/// `serde_json::to_string` on each value. Trusted: the result is
/// [`json_members_of`] of the text.
#[verifier::external_body]
pub(crate) fn json_members(text: &str) -> (r: Option<Vec<(String, String)>>)
    ensures
        match r {
            Some(v) => json_members_of(text@) == Some(pairs_of(v@)),
            None => json_members_of(text@).is_none(),
        },
{
    let members: serde_json::Map<String, serde_json::Value> = serde_json::from_str(text).ok()?;
    members
        .iter()
        .map(|(key, value)| Some((key.clone(), serde_json::to_string(value).ok()?)))
        .collect()
}

/// Calls `serde_json::from_str` for a `u64`. Trusted: the result is
/// [`json_u64_of`] of the text.
#[verifier::external_body]
pub(crate) fn json_u64(text: &str) -> (r: Option<u64>)
    ensures
        r == json_u64_of(text@),
{
    serde_json::from_str::<u64>(text).ok()
}

/// Calls `serde_json::from_str` for a `String`. Trusted: the result is
/// [`json_text_of`] of the text.
#[verifier::external_body]
pub(crate) fn json_text(text: &str) -> (r: Option<String>)
    ensures
        match r {
            Some(s) => json_text_of(text@) == Some(s@),
            None => json_text_of(text@).is_none(),
        },
{
    serde_json::from_str::<String>(text).ok()
}

/// Calls `serde_json::to_string` on a string slice. Trusted: the result is
/// [`json_quoted`] of the content.
#[verifier::external_body]
pub(crate) fn json_quote(content: &str) -> (r: String)
    ensures
        r@ == json_quoted(content@),
{
    serde_json::to_string(content).unwrap_or_default()
}

} // verus!
