//! A JSON document as far as a stored record needs it.
//!
//! Parsing is the JSON library's work. What it hands over is kept in plain
//! values: for every member of the top-level object its key, and what the
//! library's accessors say of its value.

use serde_json::Value;
use vstd::prelude::*;

verus! {

/// The mathematical value of a [`JsonItem`].
pub struct JsonItemView {
    pub text: Option<Seq<char>>,
    pub json: Seq<char>,
}

/// The mathematical value of a [`JsonField`].
pub struct JsonFieldView {
    pub key: Seq<char>,
    pub text: Option<Seq<char>>,
    pub flag: Option<bool>,
    pub items: Option<Seq<JsonItemView>>,
    pub json: Seq<char>,
}

/// The mathematical value of a [`JsonDocument`].
pub struct JsonDocumentView {
    pub members: Option<Seq<JsonFieldView>>,
}

/// An element of a JSON array.
#[derive(Debug, Clone, PartialEq, Eq)]
pub struct JsonItem {
    /// The string, where the element is one.
    pub text: Option<String>,
    /// The element in compact JSON notation.
    pub json: String,
}

/// A member of a JSON object.
#[derive(Debug, Clone, PartialEq, Eq)]
pub struct JsonField {
    pub key: String,
    /// The string, where the value is one.
    pub text: Option<String>,
    /// The boolean, where the value is one.
    pub flag: Option<bool>,
    /// The elements, where the value is an array.
    pub items: Option<Vec<JsonItem>>,
    /// The value in compact JSON notation.
    pub json: String,
}

/// A JSON document: the members of its top-level object, or `None` where the
/// document is no object.
#[derive(Debug, Clone, PartialEq, Eq)]
pub struct JsonDocument {
    pub members: Option<Vec<JsonField>>,
}

impl View for JsonItem {
    type V = JsonItemView;

    open spec fn view(&self) -> JsonItemView {
        JsonItemView { text: self.text.deep_view(), json: self.json@ }
    }
}

/// The values of a list of array elements.
pub open spec fn item_views(items: Seq<JsonItem>) -> Seq<JsonItemView> {
    items.map_values(|item: JsonItem| item@)
}

impl View for JsonField {
    type V = JsonFieldView;

    open spec fn view(&self) -> JsonFieldView {
        JsonFieldView {
            key: self.key@,
            text: self.text.deep_view(),
            flag: self.flag,
            items: match self.items {
                Some(items) => Some(item_views(items@)),
                None => None,
            },
            json: self.json@,
        }
    }
}

/// The values of a list of members.
pub open spec fn field_views(fields: Seq<JsonField>) -> Seq<JsonFieldView> {
    fields.map_values(|field: JsonField| field@)
}

impl View for JsonDocument {
    type V = JsonDocumentView;

    open spec fn view(&self) -> JsonDocumentView {
        JsonDocumentView {
            members: match self.members {
                Some(fields) => Some(field_views(fields@)),
                None => None,
            },
        }
    }
}

/// What the JSON library makes of a text: the document, or `None` where the
/// text is not JSON.
pub uninterp spec fn json_document(text: Seq<char>) -> Option<JsonDocumentView>;

/// `serde_json::from_str` to a `serde_json::Value`, and that value's
/// accessors `as_object`, `as_str`, `as_bool`, `as_array` and
/// `serde_json::to_string`, each applied once to every member of the
/// top-level object and to every element of a member that is an array.
///
/// The contract claims only that the result is a function of the text.
#[verifier::external_body]
pub(crate) fn parse_json(text: &str) -> (r: Option<JsonDocument>)
    ensures
        match r {
            Some(document) => json_document(text@) == Some(document@),
            None => json_document(text@) is None,
        },
{
    let value: Value = serde_json::from_str(text).ok()?;
    let item = |v: &Value| JsonItem {
        text: v.as_str().map(String::from),
        json: serde_json::to_string(v).unwrap_or_default(),
    };
    let field = |(k, v): (&String, &Value)| JsonField {
        key: k.clone(),
        text: v.as_str().map(String::from),
        flag: v.as_bool(),
        items: v.as_array().map(|a| a.iter().map(item).collect()),
        json: serde_json::to_string(v).unwrap_or_default(),
    };
    Some(JsonDocument { members: value.as_object().map(|m| m.iter().map(field).collect()) })
}

} // verus!
