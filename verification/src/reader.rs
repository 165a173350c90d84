//! Reading a configuration document from TOML text.
//!
//! The TOML parser is the `toml` crate's.  What it returns is trusted, not
//! proved: the items below say what is taken on trust, and everything after
//! them is verified for whatever the parser returned.
use crate::document::{ConfigDocument, DocumentModel};
use vstd::prelude::*;

verus! {

/// The value tree of the `toml` crate.  Nothing is known of it here but what
/// [`toml_tree`] names.
#[verifier::external_type_specification]
#[verifier::external_body]
pub struct ExTomlValue(toml::Value);

/// The document that a TOML value tree holds.
pub uninterp spec fn toml_tree(value: toml::Value) -> DocumentModel;

/// What the TOML parser makes of a text: the document that it reads there, or
/// its complaint about the text.
pub uninterp spec fn toml_reading(text: Seq<char>) -> Result<DocumentModel, Seq<char>>;

/// Calls `str::parse::<toml::Value>`, which is `toml::from_str`, and turns the
/// parser's error into its message.
///
/// Trusted: the result is the parser's reading of the text, a function of the
/// text alone.  When the parser succeeds is not said here.
#[verifier::external_body]
fn parse_toml(text: &str) -> (parsed: Result<toml::Value, String>)
    ensures
        match parsed {
            Ok(value) => toml_reading(text@) == Ok::<DocumentModel, Seq<char>>(toml_tree(value)),
            Err(complaint) => toml_reading(text@) == Err::<DocumentModel, Seq<char>>(
                complaint@,
            ),
        },
{
    text.parse::<toml::Value>().map_err(|e| e.to_string())
}

/// Copies a `toml::Value` into a [`ConfigDocument`], variant by variant: a
/// float by its `to_bits`, a datetime by its `to_string`, a table by the
/// entries of its map in the map's order.
///
/// Trusted: the copy holds what the tree holds.  It is well formed because a
/// table of `toml::Value` is a `BTreeMap`, which holds each key once.
#[verifier::external_body]
fn document_of(value: &toml::Value) -> (doc: ConfigDocument)
    ensures
        doc@ == toml_tree(*value),
        doc.well_formed(),
{
    match value {
        toml::Value::Integer(i) => ConfigDocument::Integer(*i),
        toml::Value::Float(x) => ConfigDocument::Float(x.to_bits()),
        toml::Value::Boolean(b) => ConfigDocument::Boolean(*b),
        toml::Value::String(text) => ConfigDocument::String(text.clone()),
        toml::Value::Datetime(stamp) => ConfigDocument::Timestamp(stamp.to_string()),
        toml::Value::Array(items) => ConfigDocument::Sequence(
            items.iter().map(document_of).collect(),
        ),
        toml::Value::Table(table) => ConfigDocument::Table(
            table.iter().map(|(key, item)| (key.clone(), document_of(item))).collect(),
        ),
    }
}

/// Reads a configuration document from TOML text.
///
/// The result is the parser's reading of the text: the document, well
/// formed, or the parser's complaint.  The parser descends into nested
/// arrays and tables as deep as its own stack allows.
pub fn read_document(text: &str) -> (reading: Result<ConfigDocument, String>)
    ensures
        match reading {
            Ok(doc) => toml_reading(text@) == Ok::<DocumentModel, Seq<char>>(doc@)
                && doc.well_formed(),
            Err(complaint) => toml_reading(text@) == Err::<DocumentModel, Seq<char>>(
                complaint@,
            ),
        },
{
    match parse_toml(text) {
        Ok(value) => Ok(document_of(&value)),
        Err(complaint) => Err(complaint),
    }
}

} // verus!
