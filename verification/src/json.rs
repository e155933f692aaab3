//! The boundary to `serde_json`, which reads and writes the JSON text of a
//! stored payload.
//!
//! Nothing in this file is proved. The documents are values of
//! `serde_json::Value`, which the verifier cannot look into; what a document
//! holds is given a name here, and each function below states over those
//! names what the `serde_json` function that it calls does.

use vstd::prelude::*;

verus! {

/// `serde_json::Value`, a JSON document. Nothing is known of what is inside
/// one but through the names below.
#[verifier::external_type_specification]
#[verifier::external_body]
pub struct ExValue(serde_json::Value);

/// `serde_json::Error`, the reason why a text was not read. It is only
/// passed on.
#[verifier::external_type_specification]
#[verifier::external_body]
pub struct ExError(serde_json::Error);

/// The document that `serde_json::from_str` reads from a text, where it reads
/// one.
pub uninterp spec fn parsed_json(text: Seq<char>) -> Option<serde_json::Value>;

/// The compact text that `serde_json` writes for a document.
pub uninterp spec fn rendered_json(doc: serde_json::Value) -> Seq<char>;

/// The members of a document that is an object, by key.
pub uninterp spec fn json_members(doc: serde_json::Value) -> Option<
    Map<Seq<char>, serde_json::Value>,
>;

/// The items of a document that is an array, in order.
pub uninterp spec fn json_items(doc: serde_json::Value) -> Option<Seq<serde_json::Value>>;

/// The characters of a document that is a string.
pub uninterp spec fn json_text(doc: serde_json::Value) -> Option<Seq<char>>;

/// The value of a document that is an integer from 0 to `u64::MAX`. A
/// number that was read with a fraction or an exponent has none.
pub uninterp spec fn json_number(doc: serde_json::Value) -> Option<u64>;

/// `serde_json::from_str` at the type `Value`: the document that the text
/// holds, or the parser's error. The result depends on the text alone.
#[verifier::external_body]
pub(crate) fn parse_json(text: &str) -> (doc: Result<serde_json::Value, serde_json::Error>)
    ensures
        match doc {
            Ok(doc) => parsed_json(text@) == Some(doc),
            Err(_) => parsed_json(text@) is None,
        },
{
    serde_json::from_str::<serde_json::Value>(text)
}

/// `Value::get` with a string index: the member of an object under `key`,
/// and `None` where the document is no object or has no such member.
#[verifier::external_body]
pub(crate) fn member<'a>(doc: &'a serde_json::Value, key: &str) -> (found: Option<
    &'a serde_json::Value,
>)
    ensures
        match found {
            Some(value) => json_members(*doc) matches Some(members) && members.dom().contains(
                key@,
            ) && members[key@] == *value,
            None => json_members(*doc) matches Some(members) ==> !members.dom().contains(key@),
        },
{
    doc.get(key)
}

/// `Value::as_u64`: the value of a document that is an integer from 0 to
/// `u64::MAX`, and `None` for any other document.
#[verifier::external_body]
pub(crate) fn number(doc: &serde_json::Value) -> (found: Option<u64>)
    ensures
        found == json_number(*doc),
{
    doc.as_u64()
}

/// `Value::as_object` and then `Map::len`: how many members an object has,
/// and `None` for a document that is no object.
#[verifier::external_body]
pub(crate) fn member_count(doc: &serde_json::Value) -> (count: Option<usize>)
    ensures
        match count {
            Some(count) => json_members(*doc) matches Some(members) && members.dom().finite()
                && members.dom().len() == count,
            None => json_members(*doc) is None,
        },
{
    doc.as_object().map(|members| members.len())
}

/// `Value::as_array`: the items of an array, and `None` for a document that
/// is no array.
#[verifier::external_body]
pub(crate) fn items<'a>(doc: &'a serde_json::Value) -> (found: Option<&'a Vec<serde_json::Value>>)
    ensures
        match found {
            Some(list) => json_items(*doc) == Some(list@),
            None => json_items(*doc) is None,
        },
{
    doc.as_array()
}

/// `Value::as_str`: the characters of a string, and `None` for a document
/// that is no string.
#[verifier::external_body]
pub(crate) fn text<'a>(doc: &'a serde_json::Value) -> (found: Option<&'a str>)
    ensures
        match found {
            Some(chars) => json_text(*doc) == Some(chars@),
            None => json_text(*doc) is None,
        },
{
    doc.as_str()
}

/// `Value::from` for a `&str`: the string document with these characters.
#[verifier::external_body]
pub(crate) fn text_value(chars: &str) -> (doc: serde_json::Value)
    ensures
        json_text(doc) == Some(chars@),
{
    serde_json::Value::from(chars)
}

/// `Value::from` for a `u64`: the number document with this value.
#[verifier::external_body]
pub(crate) fn number_value(n: u64) -> (doc: serde_json::Value)
    ensures
        json_number(doc) == Some(n),
{
    serde_json::Value::from(n)
}

/// `Value::from` for a `Vec<Value>`: the array document with these items.
#[verifier::external_body]
pub(crate) fn list_value(list: Vec<serde_json::Value>) -> (doc: serde_json::Value)
    ensures
        json_items(doc) == Some(list@),
{
    serde_json::Value::from(list)
}

/// Whether no two of the pairs have the same key.
pub open spec fn distinct_keys(pairs: Seq<(String, serde_json::Value)>) -> bool {
    forall|i: int, j: int|
        0 <= i < j < pairs.len() ==> (#[trigger] pairs[i]).0@ != (#[trigger] pairs[j]).0@
}

/// Whether `doc` is the object that has exactly the keys of the pairs, each
/// with the document of its pair.
pub open spec fn is_object_of(
    doc: serde_json::Value,
    pairs: Seq<(String, serde_json::Value)>,
) -> bool {
    &&& json_members(doc) matches Some(members)
    &&& forall|key: Seq<char>|
        members.dom().contains(key) <==> exists|i: int|
            0 <= i < pairs.len() && (#[trigger] pairs[i]).0@ == key
    &&& forall|i: int|
        0 <= i < pairs.len() ==> members[(#[trigger] pairs[i]).0@] == pairs[i].1
}

/// `Value::from_iter` for pairs of a key and a document: the object document
/// made of the pairs.
#[verifier::external_body]
pub(crate) fn object_value(pairs: Vec<(String, serde_json::Value)>) -> (doc: serde_json::Value)
    requires
        distinct_keys(pairs@),
    ensures
        is_object_of(doc, pairs@),
{
    pairs.into_iter().collect()
}

/// `Value`'s `Display`, through `to_string`: the compact JSON text of the
/// document. The result depends on the document alone.
#[verifier::external_body]
pub(crate) fn render_json(doc: &serde_json::Value) -> (rendered: String)
    ensures
        rendered@ == rendered_json(*doc),
{
    doc.to_string()
}

} // verus!
