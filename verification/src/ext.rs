//! The three formats, their codecs, and the conversion from one to another.

use crate::error::{Error, ErrorView};
use crate::model::Doc;
use crate::value::Tree;
use vstd::prelude::*;

pub mod json;
pub mod toml;
pub mod yaml;

verus! {

/// A format tag: which codec reads or writes a text.
#[derive(Clone, Copy, Debug, PartialEq, Eq, Structural)]
pub enum Ext {
    Json,
    Yaml,
    Toml,
}

/// What the parser of the format `from` makes of a text: the document that it found, or
/// the message of its error.
pub open spec fn parsed(from: Ext, text: Seq<char>) -> Result<Doc, Seq<char>> {
    match from {
        Ext::Json => json::json_parsed(text),
        Ext::Yaml => yaml::yaml_parsed(text),
        Ext::Toml => toml::toml_parsed(text),
    }
}

/// What [`deserialize`] gives for a text under the format `from`, as the view of its
/// result.
pub open spec fn decoded(from: Ext, text: Seq<char>) -> Result<Doc, ErrorView> {
    match from {
        Ext::Json => json::decoded(text),
        Ext::Yaml => yaml::decoded(text),
        Ext::Toml => toml::decoded(text),
    }
}

/// What [`serialize`] gives for the view of a tree under the format `to`, as the view of
/// its result.
pub open spec fn encoded(to: Ext, doc: Doc) -> Result<Seq<char>, ErrorView> {
    match to {
        Ext::Json => json::encoded(doc),
        Ext::Yaml => yaml::encoded(doc),
        Ext::Toml => toml::encoded(doc),
    }
}

/// What [`convert`] gives: the text is decoded under `from`; where that fails, its error
/// is the result; else the tree is encoded under `to`.
pub open spec fn converted(from: Ext, text: Seq<char>, to: Ext) -> Result<
    Seq<char>,
    ErrorView,
> {
    match decoded(from, text) {
        Err(error) => Err(error),
        Ok(doc) => encoded(to, doc),
    }
}

/// Reads a text of the format `from` into a [`Tree`].
pub fn deserialize(from: Ext, s: &str) -> (r: Result<Tree, Error>)
    ensures
        decoded(from, s@) == match r {
            Ok(tree) => Ok::<Doc, ErrorView>(tree@),
            Err(error) => Err(error@),
        },
        r matches Ok(tree) ==> tree.wf(),
{
    match from {
        Ext::Json => json::deserialize(s),
        Ext::Yaml => yaml::deserialize(s),
        Ext::Toml => toml::deserialize(s),
    }
}

/// Writes a [`Tree`] as a text of the format `to`.
pub fn serialize(to: Ext, tree: &Tree) -> (r: Result<String, Error>)
    requires
        tree.wf(),
    ensures
        encoded(to, tree@) == match r {
            Ok(text) => Ok::<Seq<char>, ErrorView>(text@),
            Err(error) => Err(error@),
        },
{
    match to {
        Ext::Json => json::serialize(tree),
        Ext::Yaml => yaml::serialize(tree),
        Ext::Toml => toml::serialize(tree),
    }
}

/// Converts a text of the format `from` into a text of the format `to`.
///
/// The result is the whole target text or the first error: a `Deserialization` error
/// where the source text cannot be read into a tree, a `Serialization` error where the
/// tree cannot be written in the target format.
pub fn convert(from: Ext, s: &str, to: Ext) -> (r: Result<String, Error>)
    ensures
        converted(from, s@, to) == match r {
            Ok(text) => Ok::<Seq<char>, ErrorView>(text@),
            Err(error) => Err(error@),
        },
{
    match deserialize(from, s) {
        Ok(tree) => serialize(to, &tree),
        Err(error) => Err(error),
    }
}

} // verus!
