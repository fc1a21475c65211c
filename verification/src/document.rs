//! One level of a parsed configuration document.
//!
//! Parsing is done by `serde_json` (JSON) and `serde_yaml` (YAML). A parsed
//! value is handed to the library one level at a time: scalars as they are,
//! and the elements of sequences and the values of mappings as compact JSON
//! text, which is parsed again (as JSON) when the library descends into it.
use serde_json::Value;
use vstd::prelude::*;

verus! {

/// The top level of a document; nested values are JSON texts.
pub enum Doc {
    Null,
    Bool(bool),
    Number(String),
    Str(String),
    Sequence(Vec<String>),
    Mapping(Vec<(String, String)>),
}

/// The model of a `Doc`.
pub enum DocV {
    Null,
    Bool(bool),
    Number(Seq<char>),
    Str(Seq<char>),
    Sequence(Seq<Seq<char>>),
    Mapping(Seq<(Seq<char>, Seq<char>)>),
}

impl View for Doc {
    type V = DocV;

    open spec fn view(&self) -> DocV {
        match self {
            Doc::Null => DocV::Null,
            Doc::Bool(b) => DocV::Bool(*b),
            Doc::Number(n) => DocV::Number(n@),
            Doc::Str(s) => DocV::Str(s@),
            Doc::Sequence(items) => DocV::Sequence(items@.map_values(|t: String| t@)),
            Doc::Mapping(entries) => DocV::Mapping(entries@.map_values(|e: (String, String)| (e.0@, e.1@))),
        }
    }
}

/// The model of a parse result: the document, or the parser's message.
pub open spec fn parse_result_view(r: Result<Doc, String>) -> Result<DocV, Seq<char>> {
    match r {
        Ok(d) => Ok(d@),
        Err(e) => Err(e@),
    }
}

/// What `serde_json` makes of the JSON text `text`: the top level of the
/// value, or the message of the error.
pub uninterp spec fn json_document(text: Seq<char>) -> Result<DocV, Seq<char>>;

/// What `serde_yaml` makes of the YAML text `text`, read as a JSON value: the
/// top level of the value, or the message of the error.
pub uninterp spec fn yaml_document(text: Seq<char>) -> Result<DocV, Seq<char>>;

/// Parses `text` as JSON.
///
/// Trusted: `serde_json::from_str::<serde_json::Value>`, then one level of the
/// value converted variant by variant; array elements and object values are
/// turned back into JSON text by `Value`'s `Display`, object entries in
/// document order (the `preserve_order` feature), a key repeated in one
/// object appearing once, where it first stood, with its last value; errors
/// become their message. The result is a function of `text` alone.
#[verifier::external_body]
pub(crate) fn read_json(text: &str) -> (r: Result<Doc, String>)
    ensures
        parse_result_view(r) == json_document(text@),
{
    match serde_json::from_str::<serde_json::Value>(text) {
        Err(e) => Err(e.to_string()),
        Ok(Value::Null) => Ok(Doc::Null),
        Ok(Value::Bool(b)) => Ok(Doc::Bool(b)),
        Ok(Value::Number(n)) => Ok(Doc::Number(n.to_string())),
        Ok(Value::String(s)) => Ok(Doc::Str(s)),
        Ok(Value::Array(a)) => Ok(Doc::Sequence(a.iter().map(Value::to_string).collect())),
        Ok(Value::Object(m)) => Ok(Doc::Mapping(m.keys().cloned().zip(m.values().map(Value::to_string)).collect())),
    }
}

/// Parses `text` as YAML.
///
/// Trusted: `serde_yaml::from_str::<serde_json::Value>`, then one level of the
/// value converted as in `read_json`: sequence elements and mapping values
/// become compact JSON text, mapping entries keep document order and a
/// repeated key is merged as in `read_json`; errors become their message.
/// The result is a function of `text` alone.
#[verifier::external_body]
pub(crate) fn read_yaml(text: &str) -> (r: Result<Doc, String>)
    ensures
        parse_result_view(r) == yaml_document(text@),
{
    match serde_yaml::from_str::<serde_json::Value>(text) {
        Err(e) => Err(e.to_string()),
        Ok(Value::Null) => Ok(Doc::Null),
        Ok(Value::Bool(b)) => Ok(Doc::Bool(b)),
        Ok(Value::Number(n)) => Ok(Doc::Number(n.to_string())),
        Ok(Value::String(s)) => Ok(Doc::Str(s)),
        Ok(Value::Array(a)) => Ok(Doc::Sequence(a.iter().map(Value::to_string).collect())),
        Ok(Value::Object(m)) => Ok(Doc::Mapping(m.keys().cloned().zip(m.values().map(Value::to_string)).collect())),
    }
}

} // verus!
