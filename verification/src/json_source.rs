//! Reading one member of a JSON document through the `json` crate.
use vstd::prelude::*;

verus! {

/// What the configuration reader learns of one member of a JSON document.
#[derive(Debug)]
pub enum JsonScalar {
    /// The document is not valid JSON.
    Malformed,
    /// The member is a JSON string.
    Text(String),
    /// The member is a JSON boolean.
    Flag(bool),
    /// The member is absent, or holds null, a number, an array or an object.
    Other,
}

/// Mathematical model of a [`JsonScalar`].
pub enum JsonScalarView {
    Malformed,
    Text(Seq<char>),
    Flag(bool),
    Other,
}

impl View for JsonScalar {
    type V = JsonScalarView;

    open spec fn view(&self) -> JsonScalarView {
        match self {
            JsonScalar::Malformed => JsonScalarView::Malformed,
            JsonScalar::Text(s) => JsonScalarView::Text(s@),
            JsonScalar::Flag(b) => JsonScalarView::Flag(*b),
            JsonScalar::Other => JsonScalarView::Other,
        }
    }
}

/// What `json::parse(text)` gives at `[section][key]`.
pub uninterp spec fn json_member(text: Seq<char>, section: Seq<char>, key: Seq<char>) -> JsonScalarView;

/// Calls `json::parse(text)`, then `JsonValue`'s `Index<&str>` twice
/// (`[section][key]`, which yields `Null` for a missing member or a value that
/// is not an object), and tells the variants of the `JsonValue` found there
/// apart. Trusted: the result is the named member of the document; what that
/// member is for a given text is not stated.
#[verifier::external_body]
pub(crate) fn json_lookup(text: &str, section: &str, key: &str) -> (r: JsonScalar)
    ensures
        r@ == json_member(text@, section@, key@),
{
    match json::parse(text) {
        Err(_) => JsonScalar::Malformed,
        Ok(root) => match &root[section][key] {
            json::JsonValue::Short(s) => JsonScalar::Text(s.as_str().to_string()),
            json::JsonValue::String(s) => JsonScalar::Text(s.clone()),
            json::JsonValue::Boolean(b) => JsonScalar::Flag(*b),
            json::JsonValue::Null => JsonScalar::Other,
            json::JsonValue::Number(_) => JsonScalar::Other,
            json::JsonValue::Object(_) => JsonScalar::Other,
            json::JsonValue::Array(_) => JsonScalar::Other,
        },
    }
}

} // verus!
