//! The two kinds of failure of a conversion.

use vstd::prelude::*;

verus! {

/// Why a conversion failed.
#[derive(Debug, PartialEq)]
pub enum Error {
    /// The tree cannot be written in the target format. Carries the reason.
    Serialization(String),
    /// The source text is not a document of the source format that a tree can hold.
    /// Carries the reason.
    Deserialization(String),
}

/// The view of an [`Error`]: its kind and the text of its reason.
pub enum ErrorView {
    Serialization(Seq<char>),
    Deserialization(Seq<char>),
}

impl View for Error {
    type V = ErrorView;

    open spec fn view(&self) -> ErrorView {
        match self {
            Error::Serialization(reason) => ErrorView::Serialization(reason@),
            Error::Deserialization(reason) => ErrorView::Deserialization(reason@),
        }
    }
}

/// The message of the error for an integer that a tree cannot hold.
pub open spec fn integer_out_of_range() -> Seq<char> {
    "integer is outside the 64-bit signed range"@
}

/// The message of the error for a tagged node.
pub open spec fn tag_not_supported() -> Seq<char> {
    "tagged values are not supported"@
}

/// The message of the error for a table key that a tree cannot keep.
pub open spec fn key_not_text() -> Seq<char> {
    "mapping keys must be strings, booleans or 64-bit integers"@
}

/// The message of the error for a float that JSON cannot write.
pub open spec fn float_not_finite() -> Seq<char> {
    "infinite and NaN floats cannot be written as JSON"@
}

/// The message of the error for a null on the way to TOML.
pub open spec fn null_not_supported() -> Seq<char> {
    "null values cannot be written as TOML"@
}

/// The message of the error for a TOML document whose root is no table.
pub open spec fn root_not_table() -> Seq<char> {
    "the root of a TOML document must be a table"@
}

/// What [`Error::to_string`] writes for an error.
pub open spec fn error_text(error: ErrorView) -> Seq<char> {
    match error {
        ErrorView::Serialization(reason) => "A serialization error occurred: "@ + reason,
        ErrorView::Deserialization(reason) => "A deserialization error occurred: "@ + reason,
    }
}

impl Error {
    /// The message for a reader: the kind of the failure, then its reason.
    pub fn to_string(&self) -> (text: String)
        ensures
            text@ == error_text(self@),
    {
        match self {
            Error::Serialization(reason) => {
                "A serialization error occurred: ".to_owned().concat(reason.as_str())
            },
            Error::Deserialization(reason) => {
                "A deserialization error occurred: ".to_owned().concat(reason.as_str())
            },
        }
    }
}

impl Error {
    /// The error for an integer that a tree cannot hold.
    pub fn integer_out_of_range() -> (error: Error)
        ensures
            error@ == ErrorView::Deserialization(integer_out_of_range()),
    {
        Error::Deserialization("integer is outside the 64-bit signed range".to_owned())
    }

    /// The error for a tagged node.
    pub fn tag_not_supported() -> (error: Error)
        ensures
            error@ == ErrorView::Deserialization(tag_not_supported()),
    {
        Error::Deserialization("tagged values are not supported".to_owned())
    }

    /// The error for a table key that a tree cannot keep.
    pub fn key_not_text() -> (error: Error)
        ensures
            error@ == ErrorView::Deserialization(key_not_text()),
    {
        Error::Deserialization(
            "mapping keys must be strings, booleans or 64-bit integers".to_owned(),
        )
    }

    /// The error for a float that JSON cannot write.
    pub fn float_not_finite() -> (error: Error)
        ensures
            error@ == ErrorView::Serialization(float_not_finite()),
    {
        Error::Serialization("infinite and NaN floats cannot be written as JSON".to_owned())
    }

    /// The error for a null on the way to TOML.
    pub fn null_not_supported() -> (error: Error)
        ensures
            error@ == ErrorView::Serialization(null_not_supported()),
    {
        Error::Serialization("null values cannot be written as TOML".to_owned())
    }

    /// The error for a TOML document whose root is no table.
    pub fn root_not_table() -> (error: Error)
        ensures
            error@ == ErrorView::Serialization(root_not_table()),
    {
        Error::Serialization("the root of a TOML document must be a table".to_owned())
    }
}

/// What a printer handed back, as a result of the library: its text, or its message as
/// the reason of a `Serialization` error.
pub open spec fn written_as(result: Result<Seq<char>, Seq<char>>) -> Result<Seq<char>, ErrorView> {
    match result {
        Ok(text) => Ok(text),
        Err(message) => Err(ErrorView::Serialization(message)),
    }
}

/// What a parser handed back where it failed, as an error of the library: its message as
/// the reason of a `Deserialization` error.
pub fn refused(message: String) -> (error: Error)
    ensures
        error@ == ErrorView::Deserialization(message@),
{
    Error::Deserialization(message)
}

/// Takes what a printer handed back, its text or the message of its error, as a result of
/// the library: the text, or a `Serialization` error with the message.
pub fn written(result: Result<String, String>) -> (r: Result<String, Error>)
    ensures
        match (result, r) {
            (Ok(text), Ok(same)) => same@ == text@,
            (Err(message), Err(error)) => error@ == ErrorView::Serialization(message@),
            _ => false,
        },
{
    match result {
        Ok(text) => Ok(text),
        Err(message) => Err(Error::Serialization(message)),
    }
}

} // verus!
