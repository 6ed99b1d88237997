//! Values within texts of JSON.
use crate::text;
use serde_json::Value;
use vstd::prelude::*;

verus! {

/// A value, as far as numbers and texts go.
pub enum Json {
    Null,
    Bool(bool),
    /// A number, as the two kinds of integers it may be held in.
    Number { unsigned: Option<u64>, signed: Option<i64> },
    Text(String),
    List,
    Object,
}

/// What a [`Json`] holds.
pub enum JsonView {
    Null,
    Bool(bool),
    Number { unsigned: Option<u64>, signed: Option<i64> },
    Text(Seq<char>),
    List,
    Object,
}

impl View for Json {
    type V = JsonView;

    open spec fn view(&self) -> JsonView {
        match *self {
            Json::Null => JsonView::Null,
            Json::Bool(b) => JsonView::Bool(b),
            Json::Number { unsigned, signed } => JsonView::Number { unsigned, signed },
            Json::Text(s) => JsonView::Text(s@),
            Json::List => JsonView::List,
            Json::Object => JsonView::Object,
        }
    }
}

/// What an optional value holds.
pub open spec fn opt_json(value: Option<Json>) -> Option<JsonView> {
    match value {
        Some(value) => Some(value@),
        None => None,
    }
}

/// The value that a pointer leads to in a text of JSON; nothing where the text is no JSON or
/// holds no such value. The empty pointer leads to the whole of it.
pub uninterp spec fn value_at(text: Seq<char>, pointer: Seq<char>) -> Option<JsonView>;

/// `serde_json::from_str` into a `Value` and, where it takes the text, `Value::pointer`. Of
/// a number, what `as_u64` and `as_i64` give; what lists and objects hold is left out. What
/// is found is given a name.
#[verifier::external_body]
pub(crate) fn find(text: &str, pointer: &str) -> (r: Option<Json>)
    ensures
        opt_json(r) == value_at(text@, pointer@),
{
    let json: Value = serde_json::from_str(text).ok()?;
    Some(match json.pointer(pointer)? {
        Value::Null => Json::Null,
        Value::Bool(b) => Json::Bool(*b),
        Value::Number(n) => Json::Number { unsigned: n.as_u64(), signed: n.as_i64() },
        Value::String(s) => Json::Text(s.clone()),
        Value::Array(_) => Json::List,
        Value::Object(_) => Json::Object,
    })
}

/// The unsigned number that a pointer leads to; nothing where it leads to anything else.
pub open spec fn unsigned_at(text: Seq<char>, pointer: Seq<char>) -> Option<u64> {
    match value_at(text, pointer) {
        Some(JsonView::Number { unsigned, .. }) => unsigned,
        _ => None,
    }
}

/// The signed number that a pointer leads to; nothing where it leads to anything else.
pub open spec fn signed_at(text: Seq<char>, pointer: Seq<char>) -> Option<i64> {
    match value_at(text, pointer) {
        Some(JsonView::Number { signed, .. }) => signed,
        _ => None,
    }
}

/// The text that a pointer leads to; nothing where it leads to anything else.
pub open spec fn text_at(text: Seq<char>, pointer: Seq<char>) -> Option<Seq<char>> {
    match value_at(text, pointer) {
        Some(JsonView::Text(s)) => Some(s),
        _ => None,
    }
}

/// Finds an unsigned number.
pub(crate) fn find_unsigned(text: &str, pointer: &str) -> (r: Option<u64>)
    ensures
        r == unsigned_at(text@, pointer@),
{
    match find(text, pointer) {
        Some(Json::Number { unsigned, .. }) => unsigned,
        _ => None,
    }
}

/// Finds a signed number.
pub(crate) fn find_signed(text: &str, pointer: &str) -> (r: Option<i64>)
    ensures
        r == signed_at(text@, pointer@),
{
    match find(text, pointer) {
        Some(Json::Number { signed, .. }) => signed,
        _ => None,
    }
}

/// Finds a text.
pub(crate) fn find_text(text: &str, pointer: &str) -> (r: Option<String>)
    ensures
        text::opt_text(r) == text_at(text@, pointer@),
{
    match find(text, pointer) {
        Some(Json::Text(s)) => Some(s),
        _ => None,
    }
}

} // verus!
