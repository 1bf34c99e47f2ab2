//! The CPU model of the machine, read from what `lscpu -J` prints.

use vstd::prelude::*;
use vstd::string::*;
use serde_json::Value;
use crate::text::same_text;
use crate::lookup::{first_index, lemma_first_index_found, lemma_first_index_absent};

verus! {

/// `serde_json::Value`: a JSON value. Nothing of its inside is known here;
/// what it holds is told by `json_member`, `json_elements` and
/// `json_string`.
#[verifier::external_type_specification]
#[verifier::external_body]
pub struct ExValue(Value);

/// What `serde_json::from_slice` makes of a text: the JSON document that
/// the text holds, none where it holds none.
pub uninterp spec fn json_document(bytes: Seq<u8>) -> Option<Value>;

/// What `Value::get` finds under a key: the member of a JSON object; none
/// for a value that is no object and for an object without the key.
pub uninterp spec fn json_member(value: Value, key: Seq<char>) -> Option<Value>;

/// What `Value::as_array` finds: the elements of a JSON array; none for a
/// value that is no array.
pub uninterp spec fn json_elements(value: Value) -> Option<Seq<Value>>;

/// What `Value::as_str` finds: the text of a JSON string; none for a value
/// that is no string.
pub uninterp spec fn json_string(value: Value) -> Option<Seq<char>>;

/// `serde_json::from_slice`: the document that the bytes hold, none where
/// they are no JSON text.
#[verifier::external_body]
fn parse_document(bytes: &[u8]) -> (r: Option<Value>)
    ensures
        r == json_document(bytes@),
{
    serde_json::from_slice(bytes).ok()
}

/// `Value::get` with a text as index: the member of an object under a key.
#[verifier::external_body]
fn member<'a>(value: &'a Value, key: &str) -> (r: Option<&'a Value>)
    ensures
        r == match json_member(*value, key@) {
            Some(m) => Some(&m),
            None => None,
        },
{
    value.get(key)
}

/// `Value::as_array`: the elements of an array.
#[verifier::external_body]
fn elements(value: &Value) -> (r: Option<&Vec<Value>>)
    ensures
        match r {
            Some(items) => json_elements(*value) == Some(items@),
            None => json_elements(*value) is None,
        },
{
    value.as_array()
}

/// `Value::as_str`: the text of a string.
#[verifier::external_body]
fn string_of(value: &Value) -> (r: Option<&str>)
    ensures
        match r {
            Some(text) => json_string(*value) == Some(text@),
            None => json_string(*value) is None,
        },
{
    value.as_str()
}

/// Whether an entry of the list that `lscpu` prints is the one for the
/// model name: an object whose member `field` is the text `Model name:`.
pub open spec fn names_model(entry: Value) -> bool {
    match json_member(entry, "field"@) {
        Some(field) => json_string(field) == Some("Model name:"@),
        None => false,
    }
}

/// The text that an entry holds under `data`, if it holds one.
pub open spec fn entry_data(entry: Value) -> Option<Seq<char>> {
    match json_member(entry, "data"@) {
        Some(data) => json_string(data),
        None => None,
    }
}

/// For each entry, whether it is the one for the model name.
pub open spec fn model_marks(entries: Seq<Value>) -> Seq<bool> {
    Seq::new(entries.len(), |i: int| names_model(entries[i]))
}

/// The CPU model that a document names: the text under `data` of the first
/// entry for the model name in the list under `lscpu`. There is none where
/// the document has no such list, the list no such entry, or the entry no
/// text.
pub open spec fn model_name(document: Value) -> Option<Seq<char>> {
    match json_member(document, "lscpu"@) {
        Some(list) => match json_elements(list) {
            Some(entries) => match first_index(model_marks(entries), true) {
                Some(i) => entry_data(entries[i]),
                None => None,
            },
            None => None,
        },
        None => None,
    }
}

/// The text of a string that may be there.
pub open spec fn text_of(found: Option<String>) -> Option<Seq<char>> {
    match found {
        Some(text) => Some(text@),
        None => None,
    }
}

/// Whether an entry is the one for the model name.
fn is_model_name(entry: &Value) -> (r: bool)
    ensures
        r == names_model(*entry),
{
    match member(entry, "field") {
        Some(field) => match string_of(field) {
            Some(text) => same_text(text, "Model name:"),
            None => false,
        },
        None => false,
    }
}

/// Finds the CPU model in a parsed document.
pub fn cpu_model_of(document: &Value) -> (r: Option<String>)
    ensures
        text_of(r) == model_name(*document),
{
    let list = match member(document, "lscpu") {
        Some(list) => list,
        None => {
            return None;
        },
    };
    let entries = match elements(list) {
        Some(entries) => entries,
        None => {
            return None;
        },
    };
    let mut i: usize = 0;
    while i < entries.len()
        invariant
            i <= entries@.len(),
            json_member(*document, "lscpu"@) == Some(*list),
            json_elements(*list) == Some(entries@),
            forall|j: int| 0 <= j < i ==> !model_marks(entries@)[j],
        decreases entries@.len() - i,
    {
        if is_model_name(&entries[i]) {
            proof {
                assert(model_marks(entries@)[i as int]);
                lemma_first_index_found(model_marks(entries@), true, i as int);
            }
            let entry = &entries[i];
            let found = match member(entry, "data") {
                Some(data) => match string_of(data) {
                    Some(text) => Some(String::from_str(text)),
                    None => None,
                },
                None => None,
            };
            return found;
        }
        i = i + 1;
    }
    proof {
        lemma_first_index_absent(model_marks(entries@), true);
    }
    None
}

/// Finds the CPU model in what `lscpu -J` printed: none where the output is
/// no JSON text, or names no model.
pub fn cpu_model_from_lscpu(output: &[u8]) -> (r: Option<String>)
    ensures
        text_of(r) == match json_document(output@) {
            Some(document) => model_name(document),
            None => None,
        },
{
    match parse_document(output) {
        Some(document) => cpu_model_of(&document),
        None => None,
    }
}

} // verus!
