use vstd::prelude::*;

use serde_json::Value;

verus! {

/// A JSON document, as the library reads it. Object members keep the order in
/// which the decoder handed them over.
pub enum Json {
    Null,
    Bool(bool),
    /// A number, as its JSON text.
    Number(String),
    Str(String),
    Array(Vec<Json>),
    Object(Vec<(String, Json)>),
}

pub enum JsonView {
    Null,
    Bool(bool),
    Number(Seq<char>),
    Str(Seq<char>),
    Array(Seq<JsonView>),
    Object(Seq<(Seq<char>, JsonView)>),
}

pub open spec fn json_view(j: Json) -> JsonView
    decreases j,
{
    match j {
        Json::Null => JsonView::Null,
        Json::Bool(b) => JsonView::Bool(b),
        Json::Number(n) => JsonView::Number(n@),
        Json::Str(s) => JsonView::Str(s@),
        Json::Array(a) => JsonView::Array(
            Seq::new(
                a.len() as nat,
                |i: int|
                    if 0 <= i < a.len() {
                        json_view(a[i])
                    } else {
                        JsonView::Null
                    },
            ),
        ),
        Json::Object(o) => JsonView::Object(
            Seq::new(
                o.len() as nat,
                |i: int|
                    if 0 <= i < o.len() {
                        (o[i].0@, json_view(o[i].1))
                    } else {
                        (Seq::empty(), JsonView::Null)
                    },
            ),
        ),
    }
}

impl View for Json {
    type V = JsonView;

    open spec fn view(&self) -> JsonView {
        json_view(*self)
    }
}

/// The document that a text decodes to, or `None` where the text is not JSON.
pub uninterp spec fn json_of(text: Seq<char>) -> Option<JsonView>;

/// The pretty-printed JSON text of a document.
pub uninterp spec fn pretty_of(doc: JsonView) -> Seq<char>;

/// The JSON text of a document, without whitespace.
pub uninterp spec fn compact_of(doc: JsonView) -> Seq<char>;

#[verifier::external_type_specification]
#[verifier::external_body]
pub struct ExValue(Value);

/// Carries a decoded serde_json value over into the library's model, member for
/// member.
#[verifier::external_body]
fn model_of(v: &Value) -> Json {
    match v {
        Value::Null => Json::Null,
        Value::Bool(b) => Json::Bool(*b),
        Value::Number(n) => Json::Number(n.to_string()),
        Value::String(s) => Json::Str(s.clone()),
        Value::Array(a) => Json::Array(a.iter().map(model_of).collect()),
        Value::Object(o) => Json::Object(o.iter().map(|(k, x)| (k.clone(), model_of(x))).collect()),
    }
}

/// Carries a document of the library's model over into a serde_json value. A number
/// is read back from its text; a text that is no JSON number, which no document from
/// `decode` holds, is carried over as `null`.
#[verifier::external_body]
fn value_of(j: &Json) -> Value {
    match j {
        Json::Null => Value::Null,
        Json::Bool(b) => Value::Bool(*b),
        Json::Number(n) => n.parse::<serde_json::Number>().map(Value::Number).unwrap_or(Value::Null),
        Json::Str(s) => Value::String(s.clone()),
        Json::Array(a) => Value::Array(a.iter().map(value_of).collect()),
        Json::Object(o) => Value::Object(o.iter().map(|(k, x)| (k.clone(), value_of(x))).collect()),
    }
}

/// Relies on serde_json::from_str: decodes a text into a document, or fails where
/// the text is not JSON; the outcome depends on the text alone.
#[verifier::external_body]
pub(crate) fn decode(text: &str) -> (r: Option<Json>)
    ensures
        match r {
            Some(j) => json_of(text@) == Some(j@),
            None => json_of(text@) is None,
        },
{
    serde_json::from_str::<Value>(text).ok().map(|v| model_of(&v))
}

/// Relies on serde_json::to_string_pretty: the document's JSON text, indented by two
/// spaces a level; the text depends on the document alone.
#[verifier::external_body]
pub(crate) fn pretty(doc: &Json) -> (r: String)
    ensures
        r@ == pretty_of(doc@),
{
    serde_json::to_string_pretty(&value_of(doc)).unwrap_or_default()
}

/// Relies on serde_json::to_string: the document's JSON text without whitespace; the
/// text depends on the document alone.
#[verifier::external_body]
pub(crate) fn compact(doc: &Json) -> (r: String)
    ensures
        r@ == compact_of(doc@),
{
    serde_json::to_string(&value_of(doc)).unwrap_or_default()
}

} // verus!
