//! JSON documents, read through `serde_json`.

use crate::text::views;
use vstd::prelude::*;

verus! {

/// What the library reads of a JSON value: the text of a string, the members
/// of an object in the order in which they are walked, and nothing of any
/// other value.
pub enum JsonModel {
    Text(Seq<char>),
    Object { keys: Seq<Seq<char>>, members: Map<Seq<char>, JsonModel> },
    Other,
}

impl JsonModel {
    /// The member of that name, where the value is an object that has one.
    pub open spec fn member(self, key: Seq<char>) -> Option<JsonModel> {
        match self {
            JsonModel::Object { keys, members } => if members.contains_key(key) {
                Some(members[key])
            } else {
                None
            },
            _ => None,
        }
    }

    /// The text, where the value is a string.
    pub open spec fn text(self) -> Option<Seq<char>> {
        match self {
            JsonModel::Text(text) => Some(text),
            _ => None,
        }
    }

    /// The names of the members, where the value is an object.
    pub open spec fn keys(self) -> Option<Seq<Seq<char>>> {
        match self {
            JsonModel::Object { keys, members } => Some(keys),
            _ => None,
        }
    }
}

/// `serde_json::Value`, a parsed JSON document.
#[verifier::external_type_specification]
#[verifier::external_body]
pub struct ExValue(serde_json::Value);

/// What a parsed document holds.
pub uninterp spec fn json_model(value: serde_json::Value) -> JsonModel;

/// What `serde_json::from_str` makes of a text: the document that it reads, or
/// the message with which it rejects the text.
pub uninterp spec fn parsed_json(text: Seq<char>) -> Result<JsonModel, Seq<char>>;

/// Calls `serde_json::from_str::<serde_json::Value>`. The document that comes
/// back, and the message of the error, depend on the text alone.
#[verifier::external_body]
pub(crate) fn parse_value(text: &str) -> (result: Result<serde_json::Value, String>)
    ensures
        match result {
            Ok(value) => parsed_json(text@) == Ok::<JsonModel, Seq<char>>(json_model(value)),
            Err(message) => parsed_json(text@) == Err::<JsonModel, Seq<char>>(message@),
        },
{
    serde_json::from_str::<serde_json::Value>(text).map_err(|error| error.to_string())
}

/// Calls `serde_json::Value::get` with a member's name. An object gives the
/// member of that name, if it has one; any other value gives `None`.
#[verifier::external_body]
fn member_of<'a>(value: &'a serde_json::Value, key: &str) -> (result: Option<&'a serde_json::Value>)
    ensures
        match result {
            Some(member) => json_model(*value).member(key@) == Some(json_model(*member)),
            None => json_model(*value).member(key@) is None,
        },
{
    value.get(key)
}

/// Calls `serde_json::Value::as_str`. A string gives its text; any other value
/// gives `None`.
#[verifier::external_body]
fn text_of_value(value: &serde_json::Value) -> (result: Option<String>)
    ensures
        text_view(result) == json_model(*value).text(),
{
    value.as_str().map(|text| text.to_string())
}

/// Calls `serde_json::Value::as_object` and walks `serde_json::Map::keys`. An
/// object gives the names of its members, each once, in the order in which the
/// map is walked; any other value gives `None`.
#[verifier::external_body]
fn keys_of_value(value: &serde_json::Value) -> (result: Option<Vec<String>>)
    ensures
        texts_view(result) == json_model(*value).keys(),
        result matches Some(keys) ==> {
            &&& views(keys@).no_duplicates()
            &&& forall|key: Seq<char>|
                views(keys@).contains(key) <==> #[trigger] json_model(*value).member(key) is Some
        },
{
    value.as_object().map(|members| members.keys().cloned().collect())
}

/// The text of an optional string.
pub open spec fn text_view(text: Option<String>) -> Option<Seq<char>> {
    match text {
        Some(text) => Some(text@),
        None => None,
    }
}

/// The texts of an optional list.
pub open spec fn texts_view(texts: Option<Vec<String>>) -> Option<Seq<Seq<char>>> {
    match texts {
        Some(texts) => Some(views(texts@)),
        None => None,
    }
}

/// The text of the member `key`, where there is one and it is a string.
pub open spec fn text_member(document: JsonModel, key: Seq<char>) -> Option<Seq<char>> {
    match document.member(key) {
        Some(member) => member.text(),
        None => None,
    }
}

/// The names of the members of the member `key`, where that is an object.
pub open spec fn keys_member(document: JsonModel, key: Seq<char>) -> Option<Seq<Seq<char>>> {
    match document.member(key) {
        Some(member) => member.keys(),
        None => None,
    }
}

/// The text of the whole document, where it is a JSON string.
pub open spec fn json_string(text: Seq<char>) -> Option<Seq<char>> {
    match parsed_json(text) {
        Ok(document) => document.text(),
        Err(message) => None,
    }
}

/// The text of the member `key`, where there is one and it is a string.
pub fn get_text(document: &serde_json::Value, key: &str) -> (result: Option<String>)
    ensures
        text_view(result) == text_member(json_model(*document), key@),
{
    match member_of(document, key) {
        Some(member) => text_of_value(member),
        None => None,
    }
}

/// The names of the members of the member `key`, where that is an object: each
/// name once, and no other.
pub fn get_keys(document: &serde_json::Value, key: &str) -> (result: Option<Vec<String>>)
    ensures
        texts_view(result) == keys_member(json_model(*document), key@),
        result matches Some(keys) ==> {
            let member = json_model(*document).member(key@)->0;
            &&& views(keys@).no_duplicates()
            &&& forall|name: Seq<char>|
                views(keys@).contains(name) <==> #[trigger] member.member(name) is Some
        },
{
    match member_of(document, key) {
        Some(member) => keys_of_value(member),
        None => None,
    }
}

/// The text that a JSON string stands for; `None` where `text` is no JSON
/// document or is not a string.
pub fn read_string(text: &str) -> (result: Option<String>)
    ensures
        text_view(result) == json_string(text@),
{
    match parse_value(text) {
        Ok(document) => text_of_value(&document),
        Err(_) => None,
    }
}

} // verus!
