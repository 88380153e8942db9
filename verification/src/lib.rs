//! Conversion between JSON, YAML and TOML documents.
//!
//! A conversion has two steps. The codec of the source format reads the text into a
//! [`value::Tree`], the one tree that stands for a document of any of the three formats;
//! the codec of the target format writes the tree as text. A text that cannot be read is
//! a [`error::Error::Deserialization`], a tree that cannot be written in the target format
//! a [`error::Error::Serialization`].
//!
//! The texts are parsed and printed by `serde_json`, `serde_yaml` and `toml`. What this
//! library adds, and proves, is what lies between them: which parsed documents become a
//! tree and which are refused, that a tree never holds a key twice, and which trees a
//! format cannot hold.
//!
//! - [`ext`]: the format tag, the three codecs, and [`ext::convert`].
//! - [`value`]: the tree. [`number`]: its floats.
//! - [`model`]: documents as mathematical values, and what reading one into a tree means.
//! - [`laws`]: what holds of every conversion.
//! - [`input`]: the source text of a conversion.

use crate::error::{Error, ErrorView};
use crate::ext::{convert, converted};
use vstd::prelude::*;

pub mod error;
pub mod ext;
pub mod input;
pub mod laws;
pub mod model;
pub mod number;
pub mod text;
pub mod value;

pub use crate::ext::Ext;

verus! {

/// A source text that can be converted into each of the three formats.
pub trait Converter: Sized {
    /// The source text.
    spec fn source(&self) -> Seq<char>;

    /// Converts the text, read as `from`, to JSON.
    fn to_json(self, from: Ext) -> (r: Result<String, Error>)
        ensures
            converted(from, self.source(), Ext::Json) == match r {
                Ok(text) => Ok::<Seq<char>, ErrorView>(text@),
                Err(error) => Err(error@),
            },
    ;

    /// Converts the text, read as `from`, to YAML.
    fn to_yaml(self, from: Ext) -> (r: Result<String, Error>)
        ensures
            converted(from, self.source(), Ext::Yaml) == match r {
                Ok(text) => Ok::<Seq<char>, ErrorView>(text@),
                Err(error) => Err(error@),
            },
    ;

    /// Converts the text, read as `from`, to TOML.
    fn to_toml(self, from: Ext) -> (r: Result<String, Error>)
        ensures
            converted(from, self.source(), Ext::Toml) == match r {
                Ok(text) => Ok::<Seq<char>, ErrorView>(text@),
                Err(error) => Err(error@),
            },
    ;
}

impl Converter for String {
    open spec fn source(&self) -> Seq<char> {
        self@
    }

    fn to_json(self, from: Ext) -> (r: Result<String, Error>) {
        convert(from, self.as_str(), Ext::Json)
    }

    fn to_yaml(self, from: Ext) -> (r: Result<String, Error>) {
        convert(from, self.as_str(), Ext::Yaml)
    }

    fn to_toml(self, from: Ext) -> (r: Result<String, Error>) {
        convert(from, self.as_str(), Ext::Toml)
    }
}

} // verus!
