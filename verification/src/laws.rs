//! What holds of every conversion, proved from the contracts of the codecs.

use crate::error::{null_not_supported, ErrorView};
use crate::ext::{converted, decoded, encoded, parsed, Ext};
use crate::model::{
    floats_kept, lemma_normalize_error_kind, lemma_normalize_keeps,
    lemma_normalize_well_formed, normalize, null_free, well_formed, Doc,
};
use vstd::prelude::*;

verus! {

/// Decoding reads a well-formed document back as it is: what a tree shows needs no
/// repair. The second condition holds of the view of every tree.
pub proof fn tree_is_read_as_it_is(doc: Doc)
    requires
        well_formed(doc),
        floats_kept(doc),
    ensures
        normalize(doc) == Ok::<Doc, ErrorView>(doc),
{
    lemma_normalize_keeps(doc);
}

/// What decoding gives is a well-formed tree, whatever the format and the text.
pub proof fn decoded_is_well_formed(from: Ext, text: Seq<char>)
    ensures
        decoded(from, text) matches Ok(doc) ==> well_formed(doc),
{
    match parsed(from, text) {
        Ok(found) => lemma_normalize_well_formed(found),
        Err(_) => {},
    }
}

/// A codec is consistent with itself: decoding the text that encoding wrote gives the
/// tree that was encoded, for every format and every tree, where the format's parser
/// finds in that text the document that its printer was given.
///
/// `doc` is the view of the tree; the condition on its floats holds of every tree.
pub proof fn decoding_inverts_encoding(format: Ext, doc: Doc, text: Seq<char>)
    requires
        well_formed(doc),
        floats_kept(doc),
        encoded(format, doc) == Ok::<Seq<char>, ErrorView>(text),
        parsed(format, text) == Ok::<Doc, Seq<char>>(doc),
    ensures
        decoded(format, text) == Ok::<Doc, ErrorView>(doc),
{
    lemma_normalize_keeps(doc);
}

/// A detour through another format changes nothing: where a text was decoded to a tree,
/// and the tree written in a format `via` whose parser finds in that text the document
/// that its printer was given, converting the text of the detour gives what converting
/// the first text gives, whatever the target format.
///
/// `doc` is the view of the tree; the condition on its floats holds of every tree.
pub proof fn detour_changes_nothing(
    from: Ext,
    text: Seq<char>,
    via: Ext,
    middle: Seq<char>,
    to: Ext,
    doc: Doc,
)
    requires
        decoded(from, text) == Ok::<Doc, ErrorView>(doc),
        floats_kept(doc),
        encoded(via, doc) == Ok::<Seq<char>, ErrorView>(middle),
        parsed(via, middle) == Ok::<Doc, Seq<char>>(doc),
    ensures
        converted(from, text, via) == Ok::<Seq<char>, ErrorView>(middle),
        decoded(via, middle) == Ok::<Doc, ErrorView>(doc),
        converted(via, middle, to) == converted(from, text, to),
{
    decoded_is_well_formed(from, text);
    lemma_normalize_keeps(doc);
}

/// A JSON document survives the way through YAML: converting it to YAML and the YAML text
/// back to JSON writes the tree of the first document, with its keys and items in their
/// order, its integers as integers and its floats as floats, where `serde_yaml` finds in
/// its text the document that it was given.
///
/// `doc` is what the JSON parser found in `text`: objects and arrays of booleans, 64-bit
/// integers, floats and strings.
pub proof fn json_survives_yaml(text: Seq<char>, doc: Doc, yaml: Seq<char>)
    requires
        parsed(Ext::Json, text) == Ok::<Doc, Seq<char>>(doc),
        well_formed(doc),
        floats_kept(doc),
        converted(Ext::Json, text, Ext::Yaml) == Ok::<Seq<char>, ErrorView>(yaml),
        parsed(Ext::Yaml, yaml) == Ok::<Doc, Seq<char>>(doc),
    ensures
        decoded(Ext::Json, text) == Ok::<Doc, ErrorView>(doc),
        decoded(Ext::Yaml, yaml) == Ok::<Doc, ErrorView>(doc),
        converted(Ext::Yaml, yaml, Ext::Json) == encoded(Ext::Json, doc),
        converted(Ext::Yaml, yaml, Ext::Json) == converted(Ext::Json, text, Ext::Json),
{
    lemma_normalize_keeps(doc);
}

/// A document that holds a null is never written as TOML: wherever the null stands, the
/// conversion fails with the `Serialization` error for it.
pub proof fn null_never_reaches_toml(from: Ext, text: Seq<char>)
    requires
        decoded(from, text) matches Ok(doc) && !null_free(doc),
    ensures
        converted(from, text, Ext::Toml) == Err::<Seq<char>, ErrorView>(
            ErrorView::Serialization(null_not_supported()),
        ),
{
}

/// A text that the parser of its format refuses gives a `Deserialization` error with the
/// parser's message, whatever the target format: never a text.
pub proof fn malformed_text_is_refused(from: Ext, text: Seq<char>, to: Ext)
    requires
        parsed(from, text) is Err,
    ensures
        converted(from, text, to) == Err::<Seq<char>, ErrorView>(
            ErrorView::Deserialization(parsed(from, text)->Err_0),
        ),
{
}

/// The two kinds of error are never taken for each other: a `Deserialization` error comes
/// exactly where the text could not be decoded, a `Serialization` error only where it
/// could.
pub proof fn error_kinds_are_apart(from: Ext, text: Seq<char>, to: Ext)
    ensures
        converted(from, text, to) matches Err(ErrorView::Deserialization(_)) <==> decoded(
            from,
            text,
        ) is Err,
        converted(from, text, to) matches Err(ErrorView::Serialization(_)) ==> decoded(
            from,
            text,
        ) is Ok,
{
    match parsed(from, text) {
        Ok(found) => lemma_normalize_error_kind(found),
        Err(_) => {},
    }
}

} // verus!
