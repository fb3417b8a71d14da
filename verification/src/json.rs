//! The JSON reader and writer that the decoder and the subscription request call.
//!
//! Nothing here is proved: each function hands its argument to `serde_json` and the
//! contract says what comes back, by a name for the result. The verified code of the
//! other modules is proved against these contracts.

use vstd::prelude::*;

verus! {

#[verifier::external_type_specification]
#[verifier::external_body]
pub struct ExJsonError(serde_json::Error);

/// The elements of the JSON array that `text` holds, each as the text it was written
/// in; `None` where `text` is not one JSON array.
pub uninterp spec fn json_array_elements(text: Seq<char>) -> Option<Seq<Seq<char>>>;

/// The fields of the JSON object that `text` holds, each as its name and the text of
/// its value, in the order of the names; a name that the object writes more than once
/// stands once, with the value written last. `None` where `text` is not one JSON
/// object.
pub uninterp spec fn json_object_fields(text: Seq<char>) -> Option<Seq<(Seq<char>, Seq<char>)>>;

/// The characters that the JSON string literal `text` denotes; `None` where `text` is
/// not one JSON string.
pub uninterp spec fn json_string_content(text: Seq<char>) -> Option<Seq<char>>;

/// The JSON text of an array of strings.
pub uninterp spec fn json_string_array_text(items: Seq<Seq<char>>) -> Seq<char>;

/// `serde_json::from_str` at the type `Vec<Box<RawValue>>`: reads `text` as one JSON
/// array and hands out the text of each element. The result is the one that
/// `json_array_elements` names; an error means that there is none. The text `[]` is
/// read as the array without elements.
#[verifier::external_body]
pub(crate) fn read_array(text: &str) -> (elements: Result<Vec<String>, serde_json::Error>)
    ensures
        match elements {
            Ok(items) => json_array_elements(text@) == Some(items.deep_view()),
            Err(_) => json_array_elements(text@) is None,
        },
        text@ == "[]"@ ==> elements is Ok && elements->Ok_0.len() == 0,
{
    let items = serde_json::from_str::<Vec<Box<serde_json::value::RawValue>>>(text)?;
    Ok(items.into_iter().map(|raw| raw.get().to_owned()).collect())
}

/// `serde_json::from_str` at the type `BTreeMap<String, Box<RawValue>>`: reads `text`
/// as one JSON object and hands out each field's name with the text of its value,
/// as the map holds them: sorted by name, each name once, the value written last
/// for a name that is written more than once. The result is the one that
/// `json_object_fields` names; an error means that there is none.
#[verifier::external_body]
pub(crate) fn read_object(text: &str) -> (fields: Result<
    Vec<(String, String)>,
    serde_json::Error,
>)
    ensures
        match fields {
            Ok(pairs) => json_object_fields(text@) == Some(pairs.deep_view()),
            Err(_) => json_object_fields(text@) is None,
        },
{
    let map = serde_json::from_str::<
        std::collections::BTreeMap<String, Box<serde_json::value::RawValue>>,
    >(text)?;
    Ok(map.into_iter().map(|(name, raw)| (name, raw.get().to_owned())).collect())
}

/// `serde_json::from_str` at the type `String`: reads `text` as one JSON string
/// literal. The result is the one that `json_string_content` names; an error means
/// that there is none.
#[verifier::external_body]
pub(crate) fn read_string(text: &str) -> (content: Result<String, serde_json::Error>)
    ensures
        match content {
            Ok(s) => json_string_content(text@) == Some(s@),
            Err(_) => json_string_content(text@) is None,
        },
{
    serde_json::from_str::<String>(text)
}

/// `serde_json::to_string` on a list of strings: writes them as one JSON array. The
/// call succeeds, and its result is the one that `json_string_array_text` names. The
/// writer fails only where writing to its output does or a value refuses to be
/// written; here the output is a buffer in memory and the values are strings.
#[verifier::external_body]
pub(crate) fn write_string_array(items: &Vec<String>) -> (text: Result<String, serde_json::Error>)
    ensures
        text is Ok,
        text->Ok_0@ == json_string_array_text(items.deep_view()),
{
    serde_json::to_string(items)
}

} // verus!
