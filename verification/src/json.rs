//! JSON texts, as far as the session metadata uses them.
use vstd::prelude::*;

verus! {

/// A JSON object of `serde_json`.
#[verifier::external_type_specification]
#[verifier::external_body]
#[verifier::reject_recursive_types(K)]
#[verifier::reject_recursive_types(V)]
pub struct ExJsonMap<K, V>(serde_json::Map<K, V>);

/// A JSON value of `serde_json`.
#[verifier::external_type_specification]
#[verifier::external_body]
pub struct ExJsonValue(serde_json::Value);

/// A member of a JSON object.
#[derive(Debug, PartialEq, Eq)]
pub enum JsonMember {
    Text(String),
    /// A number, with its value where it is an unsigned 64-bit integer.
    Number(Option<u64>),
    Other,
}

/// The contents of a [`JsonMember`].
pub enum JsonMemberView {
    Text(Seq<char>),
    Number(Option<u64>),
    Other,
}

impl View for JsonMember {
    type V = JsonMemberView;

    open spec fn view(&self) -> JsonMemberView {
        match self {
            JsonMember::Text(s) => JsonMemberView::Text(s@),
            JsonMember::Number(n) => JsonMemberView::Number(*n),
            JsonMember::Other => JsonMemberView::Other,
        }
    }
}

/// A JSON document by the kind of its top value.
#[derive(Debug, PartialEq, Eq)]
pub enum JsonDocument {
    Object(serde_json::Map<String, serde_json::Value>),
    Text(String),
    Other,
}

/// The contents of a [`JsonDocument`].
pub enum JsonDocumentView {
    Object(Map<Seq<char>, JsonMemberView>),
    Text(Seq<char>),
    Other,
}

/// The members of a JSON object, by their names.
pub uninterp spec fn json_members(
    object: serde_json::Map<String, serde_json::Value>,
) -> Map<Seq<char>, JsonMemberView>;

/// What a text stands for as a JSON document; `None` where it is none.
pub uninterp spec fn json_document(text: Seq<char>) -> Option<JsonDocumentView>;

impl View for JsonDocument {
    type V = JsonDocumentView;

    open spec fn view(&self) -> JsonDocumentView {
        match self {
            JsonDocument::Object(object) => JsonDocumentView::Object(json_members(*object)),
            JsonDocument::Text(s) => JsonDocumentView::Text(s@),
            JsonDocument::Other => JsonDocumentView::Other,
        }
    }
}

/// Parses a JSON text (`serde_json::from_str` into a `serde_json::Value`). The
/// result is the document named by [`json_document`], and nothing where the
/// text is no JSON document.
#[verifier::external_body]
pub(crate) fn parse_json(text: &str) -> (r: Option<JsonDocument>)
    ensures
        match r {
            Some(document) => json_document(text@) == Some(document@),
            None => json_document(text@) is None,
        },
{
    match serde_json::from_str::<serde_json::Value>(text) {
        Ok(serde_json::Value::Object(object)) => Some(JsonDocument::Object(object)),
        Ok(serde_json::Value::String(s)) => Some(JsonDocument::Text(s)),
        Ok(_) => Some(JsonDocument::Other),
        Err(_) => None,
    }
}

/// Looks a member up by its name (`serde_json::Map::get`). The result is the
/// member that [`json_members`] holds under that name.
#[verifier::external_body]
pub(crate) fn json_member(
    object: &serde_json::Map<String, serde_json::Value>,
    name: &str,
) -> (r: Option<JsonMember>)
    ensures
        match r {
            Some(member) => json_members(*object).contains_key(name@) && json_members(
                *object,
            )[name@] == member@,
            None => !json_members(*object).contains_key(name@),
        },
{
    object.get(name).map(
        |value|
            match value {
                serde_json::Value::String(s) => JsonMember::Text(s.clone()),
                serde_json::Value::Number(n) => JsonMember::Number(n.as_u64()),
                _ => JsonMember::Other,
            },
    )
}

} // verus!
