//! Configuration documents: from TOML to JSON.
use crate::failure::Failure;
use vstd::prelude::*;

verus! {

/// A document of `toml`. What it holds is known by `document_json` alone.
#[verifier::external_type_specification]
#[verifier::external_body]
pub struct ExDocument(toml::Value);

/// Why `toml` could not read a document.
#[verifier::external_type_specification]
#[verifier::external_body]
pub struct ExDocumentError(toml::de::Error);

/// What `document` holds, as the JSON that `serde_json::to_string` writes
/// for it: its tables as objects, its arrays as arrays, and each value in
/// the form that JSON has for it.
pub uninterp spec fn document_json(document: toml::Value) -> Seq<char>;

/// What `toml::from_str` reads from `content`: the document, by the JSON of
/// what it holds, or `None` where `content` is no document of TOML.
pub uninterp spec fn toml_document(content: Seq<char>) -> Option<Seq<char>>;

/// Whether `content` is a document of TOML.
pub open spec fn is_toml(content: Seq<char>) -> bool {
    toml_document(content) is Some
}

/// Reads `content` as a document with `toml::from_str`: the document that
/// `toml_document` names, where `content` is a document of TOML, and the
/// parser's error where it is not.
#[verifier::external_body]
pub(crate) fn read_document(content: &str) -> (document: Result<toml::Value, toml::de::Error>)
    ensures
        document is Ok == toml_document(content@) is Some,
        document matches Ok(read) ==> toml_document(content@) == Some(document_json(read)),
{
    toml::from_str::<toml::Value>(content)
}

/// Writes `document` as JSON with `serde_json::to_string`. That function
/// fails only where a value refuses to be written or a map has a key that
/// is no string. A document holds strings, numbers, booleans, dates, arrays
/// and tables with strings for keys, and a number that is not finite is
/// written as `null`: the result is `Ok`, with the JSON of the document.
#[verifier::external_body]
pub(crate) fn write_document(document: &toml::Value) -> (json: Result<String, serde_json::Error>)
    ensures
        json is Ok,
        json matches Ok(text) ==> text@ == document_json(*document),
{
    serde_json::to_string(document)
}

/// What a conversion comes to, given what the writer made of the document:
/// its JSON, or `InvalidDocument` with the writer's words.
pub fn written_document(json: Result<String, serde_json::Error>) -> (converted: Result<
    String,
    Failure,
>)
    ensures
        match json {
            Ok(text) => converted == Ok::<String, Failure>(text),
            Err(_) => converted matches Err(Failure::InvalidDocument(_)),
        },
{
    match json {
        Ok(text) => Ok(text),
        Err(error) => Err(Failure::InvalidDocument(error.to_string())),
    }
}

/// Converts a document of TOML to JSON. A document gives its JSON, the
/// same for the same content; text that is no TOML fails with
/// `InvalidDocument` and the parser's words.
pub fn convert_toml_to_json(content: &str) -> (json: Result<String, Failure>)
    ensures
        is_toml(content@) <==> json is Ok,
        json matches Ok(text) ==> toml_document(content@) == Some(text@),
        json matches Err(e) ==> e matches Failure::InvalidDocument(_),
{
    match read_document(content) {
        Ok(document) => written_document(write_document(&document)),
        Err(error) => Err(Failure::InvalidDocument(error.to_string())),
    }
}

} // verus!
