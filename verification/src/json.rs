//! JSON text for lists of strings and for objects of optional strings,
//! written and read by `serde_json`.

use vstd::prelude::*;

verus! {

/// The JSON text that `serde_json::to_string` writes for a list of strings:
/// an array of JSON strings.
pub uninterp spec fn json_strings(list: Seq<Seq<char>>) -> Seq<char>;

/// The list of strings that `serde_json::from_str` reads from a JSON text,
/// if the text is a JSON array of strings.
pub uninterp spec fn json_strings_read(text: Seq<char>) -> Option<Seq<Seq<char>>>;

/// The JSON text that `serde_json` writes for the object with the given
/// entries, each a key with a string or with nothing, for which `null`
/// stands. The order in which the keys are written is the one that
/// `serde_json`'s map gives them.
pub uninterp spec fn json_object(entries: Seq<(Seq<char>, Option<Seq<char>>)>) -> Seq<char>;

/// An entry of an object: a key with a string, or with nothing.
pub open spec fn entry_view(entry: (String, Option<String>)) -> (Seq<char>, Option<Seq<char>>) {
    (entry.0@, crate::item::opt_text(entry.1))
}

/// The entries of an object.
pub open spec fn entry_views(entries: Seq<(String, Option<String>)>) -> Seq<
    (Seq<char>, Option<Seq<char>>),
> {
    Seq::new(entries.len(), |i: int| entry_view(entries[i]))
}

/// Calls `serde_json::to_string` on a list of strings. Writing such a list
/// into a string cannot fail; the result is the JSON text of the list.
#[verifier::external_body]
pub(crate) fn write_strings(list: &Vec<String>) -> (out: String)
    ensures
        out@ == json_strings(crate::item::texts(list@)),
{
    match serde_json::to_string(list) {
        Ok(text) => text,
        Err(_) => String::new(),
    }
}

/// Calls `serde_json::from_str` for a list of strings; `None` stands for its
/// error.
#[verifier::external_body]
pub(crate) fn read_strings(text: &str) -> (out: Option<Vec<String>>)
    ensures
        crate::item::opt_texts(out) == json_strings_read(text@),
{
    match serde_json::from_str::<Vec<String>>(text) {
        Ok(list) => Some(list),
        Err(_) => None,
    }
}

/// Collects the entries into a `serde_json::Map`, every value converted
/// with `serde_json::Value::from` (a string, or `null` for nothing), and
/// writes the object with `to_string` of `serde_json::Value`. The result is
/// the JSON text of the object.
#[verifier::external_body]
pub(crate) fn write_object(entries: &Vec<(String, Option<String>)>) -> (out: String)
    ensures
        out@ == json_object(entry_views(entries@)),
{
    let map: serde_json::Map<String, serde_json::Value> = entries
        .iter()
        .map(|entry| (entry.0.clone(), serde_json::Value::from(entry.1.clone())))
        .collect();
    serde_json::Value::Object(map).to_string()
}

} // verus!
