//! The JSON codec: `serde_json` reads and writes the text, this module moves between its
//! value and [`Tree`].

use crate::error::{float_not_finite, refused, written, written_as, Error, ErrorView};
use crate::model::{
    all_finite, float_is_finite, lemma_entries_error_stays, lemma_items_error_stays,
    lemma_normalize_well_formed, normalize, normalize_entries, normalize_items, well_formed,
    Doc, Numeral,
};
use crate::number::{carried, yaml_number, Float};
use crate::value::{entry_docs, item_docs, push_entry, Tree};
use vstd::prelude::*;

verus! {

/// `serde_json::Value`; the verifier does not look inside it.
#[verifier::external_type_specification]
#[verifier::external_body]
pub struct ExJsonValue(serde_json::Value);

/// `serde_json::Number`; the verifier does not look inside it.
#[verifier::external_type_specification]
#[verifier::external_body]
pub struct ExJsonNumber(serde_json::Number);

/// The document that a `serde_json::Value` holds: null, a boolean, a number as
/// [`json_number`] gives it, text, a list, or a table whose keys are text, in the order in
/// which the object keeps them.
pub uninterp spec fn json_doc(value: serde_json::Value) -> Doc;

/// The number that a `serde_json::Number` holds: an integer from -2^63 to 2^64 - 1, or a
/// float that is finite.
pub uninterp spec fn json_number(number: serde_json::Number) -> Numeral;

/// What `serde_json::from_str` makes of a text: the document of the value, or the message
/// that `Display` writes for its error.
pub uninterp spec fn json_parsed(text: Seq<char>) -> Result<Doc, Seq<char>>;

/// What `serde_json::to_string_pretty` makes of a value that holds `doc`: the text, or the
/// message that `Display` writes for its error.
pub uninterp spec fn json_rendered(doc: Doc) -> Result<Seq<char>, Seq<char>>;

/// One node of a `serde_json::Value`, with its children still in place.
pub enum JsonNode<'a> {
    Null,
    Bool(bool),
    Number(&'a serde_json::Number),
    String(&'a String),
    Array(&'a Vec<serde_json::Value>),
    Object(Vec<(&'a String, &'a serde_json::Value)>),
}

impl<'a> JsonNode<'a> {
    /// The document that the node holds.
    pub open spec fn doc(self) -> Doc {
        match self {
            JsonNode::Null => Doc::Null,
            JsonNode::Bool(b) => Doc::Bool(b),
            JsonNode::Number(number) => json_number(*number).doc(),
            JsonNode::String(text) => Doc::Text(text@),
            JsonNode::Array(items) => Doc::List(
                Seq::new(items@.len(), |i: int| json_doc(items@[i])),
            ),
            JsonNode::Object(entries) => Doc::Table(
                Seq::new(
                    entries@.len(),
                    |i: int| (Doc::Text(entries@[i].0@), json_doc(*entries@[i].1)),
                ),
            ),
        }
    }

    /// Whether no two entries of an object have the same key.
    pub open spec fn keys_differ(self) -> bool {
        self matches JsonNode::Object(entries) ==> forall|i: int, j: int|
            0 <= i < j < entries@.len() ==> (#[trigger] entries@[i]).0@ != (
            #[trigger] entries@[j]).0@
    }
}

/// One node of a `serde_json::Value` to be made, with its children made already.
pub enum JsonParts {
    Null,
    Bool(bool),
    Number(serde_json::Number),
    String(String),
    Array(Vec<serde_json::Value>),
    Object(Vec<(String, serde_json::Value)>),
}

impl JsonParts {
    /// The document that the node will hold.
    pub open spec fn doc(self) -> Doc {
        match self {
            JsonParts::Null => Doc::Null,
            JsonParts::Bool(b) => Doc::Bool(b),
            JsonParts::Number(number) => json_number(number).doc(),
            JsonParts::String(text) => Doc::Text(text@),
            JsonParts::Array(items) => Doc::List(
                Seq::new(items@.len(), |i: int| json_doc(items@[i])),
            ),
            JsonParts::Object(entries) => Doc::Table(
                Seq::new(
                    entries@.len(),
                    |i: int| (Doc::Text(entries@[i].0@), json_doc(entries@[i].1)),
                ),
            ),
        }
    }

    /// Whether no two entries of an object to be made have the same key.
    pub open spec fn keys_differ(self) -> bool {
        self matches JsonParts::Object(entries) ==> forall|i: int, j: int|
            0 <= i < j < entries@.len() ==> (#[trigger] entries@[i]).0@ != (
            #[trigger] entries@[j]).0@
    }
}

/// Calls `serde_json::from_str` for a `serde_json::Value`, and `to_string` on its error.
/// The contract names what comes back: [`json_parsed`] of the text.
#[verifier::external_body]
fn from_str(text: &str) -> (r: Result<serde_json::Value, String>)
    ensures
        json_parsed(text@) == match r {
            Ok(found) => Ok::<Doc, Seq<char>>(json_doc(found)),
            Err(message) => Err(message@),
        },
{
    match serde_json::from_str::<serde_json::Value>(text) {
        Ok(found) => Ok(found),
        Err(error) => Err(error.to_string()),
    }
}

/// Calls `serde_json::to_string_pretty`, and `to_string` on its error. The contract names
/// what comes back: [`json_rendered`] of the document that the value holds.
#[verifier::external_body]
fn to_string_pretty(made: &serde_json::Value) -> (r: Result<String, String>)
    ensures
        json_rendered(json_doc(*made)) == match r {
            Ok(text) => Ok::<Seq<char>, Seq<char>>(text@),
            Err(message) => Err(message@),
        },
{
    match serde_json::to_string_pretty(made) {
        Ok(text) => Ok(text),
        Err(error) => Err(error.to_string()),
    }
}

/// Tells the variants of `serde_json::Value` apart and hands out what each holds. The
/// entries of an object come in the order of its iterator, which is the order of
/// insertion; an object is a map and holds no key twice.
#[verifier::external_body]
fn peel<'a>(found: &'a serde_json::Value) -> (node: JsonNode<'a>)
    ensures
        node.doc() == json_doc(*found),
        node.keys_differ(),
{
    match found {
        serde_json::Value::Null => JsonNode::Null,
        serde_json::Value::Bool(b) => JsonNode::Bool(*b),
        serde_json::Value::Number(number) => JsonNode::Number(number),
        serde_json::Value::String(text) => JsonNode::String(text),
        serde_json::Value::Array(items) => JsonNode::Array(items),
        serde_json::Value::Object(entries) => JsonNode::Object(entries.iter().collect()),
    }
}

/// Makes the variant of `serde_json::Value` for each kind of node. An object is collected
/// into a `serde_json::Map`, which keeps entries with different keys in the order in which
/// they come.
#[verifier::external_body]
fn build(parts: JsonParts) -> (made: serde_json::Value)
    requires
        parts.keys_differ(),
    ensures
        json_doc(made) == parts.doc(),
{
    match parts {
        JsonParts::Null => serde_json::Value::Null,
        JsonParts::Bool(b) => serde_json::Value::Bool(b),
        JsonParts::Number(number) => serde_json::Value::Number(number),
        JsonParts::String(text) => serde_json::Value::String(text),
        JsonParts::Array(items) => serde_json::Value::Array(items),
        JsonParts::Object(entries) => serde_json::Value::Object(entries.into_iter().collect()),
    }
}

/// Calls `serde_json::Number::as_i64`: the integer, where the number is one between
/// `i64::MIN` and `i64::MAX`. The number is an integer from `i64::MIN` to `u64::MAX` or a
/// float.
#[verifier::external_body]
fn number_as_i64(number: &serde_json::Number) -> (r: Option<i64>)
    ensures
        match json_number(*number) {
            Numeral::Int(i) => i64::MIN <= i <= u64::MAX && r == (if i <= i64::MAX {
                Some(i as i64)
            } else {
                None
            }),
            Numeral::Float(_) => r is None,
        },
{
    number.as_i64()
}

/// Calls `serde_json::Number::is_f64`, which is true exactly of a number that holds a
/// float.
#[verifier::external_body]
fn number_is_float(number: &serde_json::Number) -> (r: bool)
    ensures
        r == (json_number(*number) is Float),
{
    number.is_f64()
}

/// Calls `serde_json::Number::as_f64` and hands the float, which is finite, to
/// `serde_yaml::Number::from`, so that it can stand in a [`Float`]. An integer would come
/// back as the nearest float.
#[verifier::external_body]
fn number_to_float(number: &serde_json::Number) -> (r: Option<serde_yaml::Number>)
    ensures
        json_number(*number) matches Numeral::Float(bits) ==> r is Some && yaml_number(
            r->Some_0,
        ) == Numeral::Float(carried(bits)),
{
    number.as_f64().map(serde_yaml::Number::from)
}

/// Calls `serde_json::Number::from` on an `i64`.
#[verifier::external_body]
fn number_from_i64(i: i64) -> (number: serde_json::Number)
    ensures
        json_number(number) == Numeral::Int(i as int),
{
    serde_json::Number::from(i)
}

/// Calls `serde_yaml::Number::as_f64` on the carrier of a float and hands the float to
/// `serde_json::Number::from_f64`, which gives a number for a finite float and `None` for
/// an infinity or a NaN.
#[verifier::external_body]
fn number_from_float(carrier: &serde_yaml::Number) -> (r: Option<serde_json::Number>)
    requires
        yaml_number(*carrier) is Float,
    ensures
        match r {
            Some(number) => json_number(number) == yaml_number(*carrier) && float_is_finite(
                yaml_number(*carrier)->Float_0,
            ),
            None => !float_is_finite(yaml_number(*carrier)->Float_0),
        },
{
    carrier.as_f64().and_then(serde_json::Number::from_f64)
}

/// What [`deserialize`] gives for a text, as the view of its result.
pub open spec fn decoded(text: Seq<char>) -> Result<Doc, ErrorView> {
    match json_parsed(text) {
        Err(message) => Err(ErrorView::Deserialization(message)),
        Ok(doc) => normalize(doc),
    }
}

/// What [`serialize`] gives for the view of a tree, as the view of its result.
pub open spec fn encoded(doc: Doc) -> Result<Seq<char>, ErrorView> {
    if !all_finite(doc) {
        Err(ErrorView::Serialization(float_not_finite()))
    } else {
        written_as(json_rendered(doc))
    }
}

/// The tree for a JSON number: an integer where it fits 64 signed bits, an error for a
/// larger integer, a float for a float.
fn lift_number(number: &serde_json::Number) -> (r: Result<Tree, Error>)
    ensures
        normalize(json_number(*number).doc()) == match r {
            Ok(tree) => Ok::<Doc, ErrorView>(tree@),
            Err(error) => Err(error@),
        },
{
    match number_as_i64(number) {
        Some(i) => Ok(Tree::Integer(i)),
        None => {
            let carrier = if number_is_float(number) {
                number_to_float(number)
            } else {
                None
            };
            match carrier {
                Some(carrier) => Tree::of_number(carrier),
                None => Err(Error::integer_out_of_range()),
            }
        },
    }
}

/// Turns what `serde_json` parsed into a [`Tree`].
///
/// The result is [`normalize`] of the parsed document: the same document where every
/// integer fits 64 signed bits, else the error of the first integer that does not.
pub fn lift(found: &serde_json::Value) -> (r: Result<Tree, Error>)
    ensures
        normalize(json_doc(*found)) == match r {
            Ok(tree) => Ok::<Doc, ErrorView>(tree@),
            Err(error) => Err(error@),
        },
        r matches Ok(tree) ==> tree.wf(),
    decreases json_doc(*found),
{
    proof {
        lemma_normalize_well_formed(json_doc(*found));
    }
    match peel(found) {
        JsonNode::Null => Ok(Tree::Null),
        JsonNode::Bool(b) => Ok(Tree::Boolean(b)),
        JsonNode::Number(number) => lift_number(number),
        JsonNode::String(text) => Ok(Tree::String(text.clone())),
        JsonNode::Array(items) => {
            let ghost docs = Seq::new(items@.len(), |k: int| json_doc(items@[k]));
            let mut done: Vec<Tree> = Vec::new();
            let mut i: usize = 0;
            assert(item_docs(done@) =~= Seq::empty());
            while i < items.len()
                invariant
                    i <= items.len(),
                    docs == Seq::new(items@.len(), |k: int| json_doc(items@[k])),
                    json_doc(*found) == Doc::List(docs),
                    normalize_items(docs, i as nat) == Ok::<Seq<Doc>, ErrorView>(
                        item_docs(done@),
                    ),
                decreases items.len() - i,
            {
                assert(docs[i as int] == json_doc(items@[i as int]));
                assert(Doc::List(docs)->List_0 == docs);
                match lift(&items[i]) {
                    Ok(item) => {
                        let ghost before = item_docs(done@);
                        let ghost doc = item@;
                        done.push(item);
                        assert(item_docs(done@) =~= before.push(doc));
                    },
                    Err(error) => {
                        proof {
                            lemma_items_error_stays(docs, (i + 1) as nat, docs.len());
                        }
                        return Err(error);
                    },
                }
                i += 1;
            }
            Ok(Tree::Sequence(done))
        },
        JsonNode::Object(entries) => {
            let ghost docs = Seq::new(
                entries@.len(),
                |k: int| (Doc::Text(entries@[k].0@), json_doc(*entries@[k].1)),
            );
            let mut done: Vec<(String, Tree)> = Vec::new();
            let mut i: usize = 0;
            assert(entry_docs(done@) =~= Seq::empty());
            assert forall|a: int, b: int| 0 <= a < b < docs.len() implies (#[trigger] docs[a]).0
                != (#[trigger] docs[b]).0 by {
                assert(entries@[a].0@ != entries@[b].0@);
            }
            while i < entries.len()
                invariant
                    i <= entries.len(),
                    docs == Seq::new(
                        entries@.len(),
                        |k: int| (Doc::Text(entries@[k].0@), json_doc(*entries@[k].1)),
                    ),
                    json_doc(*found) == Doc::Table(docs),
                    normalize_entries(docs, i as nat) == Ok::<Seq<(Doc, Doc)>, ErrorView>(
                        entry_docs(done@),
                    ),
                    done@.len() == i,
                    forall|k: int| 0 <= k < i ==> (#[trigger] entry_docs(done@)[k]).0 == docs[k].0,
                    forall|a: int, b: int|
                        0 <= a < b < docs.len() ==> (#[trigger] docs[a]).0 != (
                        #[trigger] docs[b]).0,
                decreases entries.len() - i,
            {
                let key: &String = entries[i].0;
                let child: &serde_json::Value = entries[i].1;
                assert(docs[i as int].1 == json_doc(*child));
                assert(Doc::Table(docs)->Table_0 == docs);
                match lift(child) {
                    Ok(value) => {
                        assert forall|k: int| 0 <= k < done@.len() implies (#[trigger] entry_docs(
                            done@,
                        )[k]).0 != Doc::Text(key@) by {
                            assert(docs[k].0 != docs[i as int].0);
                        }
                        push_entry(&mut done, key.clone(), value);
                    },
                    Err(error) => {
                        proof {
                            lemma_entries_error_stays(docs, (i + 1) as nat, docs.len());
                        }
                        return Err(error);
                    },
                }
                i += 1;
            }
            Ok(Tree::Mapping(done))
        },
    }
}

/// Makes of a [`Tree`] the value that `serde_json` writes.
///
/// The value holds the document that the tree shows. JSON has no infinity and no NaN: a
/// tree that holds one is refused.
pub fn lower(tree: &Tree) -> (r: Result<serde_json::Value, Error>)
    requires
        tree.wf(),
    ensures
        match r {
            Ok(made) => all_finite(tree@) && json_doc(made) == tree@,
            Err(error) => !all_finite(tree@) && error@ == ErrorView::Serialization(
                float_not_finite(),
            ),
        },
    decreases tree,
{
    match tree {
        Tree::Null => Ok(build(JsonParts::Null)),
        Tree::Boolean(b) => Ok(build(JsonParts::Bool(*b))),
        Tree::Integer(i) => Ok(build(JsonParts::Number(number_from_i64(*i)))),
        Tree::Float(float) => match number_from_float(float.as_number()) {
            Some(number) => Ok(build(JsonParts::Number(number))),
            None => Err(Error::float_not_finite()),
        },
        Tree::String(text) => Ok(build(JsonParts::String(text.clone()))),
        Tree::Sequence(items) => {
            let ghost docs = item_docs(items@);
            assert(Doc::List(docs)->List_0 == docs);
            let mut made: Vec<serde_json::Value> = Vec::new();
            let mut i: usize = 0;
            while i < items.len()
                invariant
                    i <= items.len(),
                    made@.len() == i,
                    docs == item_docs(items@),
                    tree@ == Doc::List(docs),
                    well_formed(tree@),
                    *tree == Tree::Sequence(*items),
                    forall|k: int| 0 <= k < i ==> json_doc(#[trigger] made@[k]) == docs[k],
                    forall|k: int| 0 <= k < i ==> all_finite(#[trigger] docs[k]),
                decreases items.len() - i,
            {
                assert(docs[i as int] == items@[i as int]@);
                assert(Doc::List(docs)->List_0 == docs);
                match lower(&items[i]) {
                    Ok(item) => made.push(item),
                    Err(error) => {
                        return Err(error);
                    },
                }
                i += 1;
            }
            let parts = JsonParts::Array(made);
            assert(parts.doc()->List_0 =~= docs);
            Ok(build(parts))
        },
        Tree::Mapping(entries) => {
            let ghost docs = entry_docs(entries@);
            assert(Doc::Table(docs)->Table_0 == docs);
            let mut made: Vec<(String, serde_json::Value)> = Vec::new();
            let mut i: usize = 0;
            while i < entries.len()
                invariant
                    i <= entries.len(),
                    made@.len() == i,
                    docs == entry_docs(entries@),
                    tree@ == Doc::Table(docs),
                    well_formed(tree@),
                    *tree == Tree::Mapping(*entries),
                    forall|k: int|
                        0 <= k < i ==> (Doc::Text((#[trigger] made@[k]).0@), json_doc(made@[k].1))
                            == docs[k],
                    forall|k: int| 0 <= k < i ==> all_finite((#[trigger] docs[k]).1),
                decreases entries.len() - i,
            {
                assert(docs[i as int] == (Doc::Text(entries@[i as int].0@), entries@[i as int].1@));
                assert(Doc::Table(docs)->Table_0 == docs);
                match lower(&entries[i].1) {
                    Ok(value) => made.push((entries[i].0.clone(), value)),
                    Err(error) => {
                        return Err(error);
                    },
                }
                i += 1;
            }
            let parts = JsonParts::Object(made);
            assert(parts.doc()->Table_0 =~= docs);
            assert(parts.keys_differ()) by {
                assert forall|a: int, b: int| 0 <= a < b < made@.len() implies (
                #[trigger] made@[a]).0@ != (#[trigger] made@[b]).0@ by {
                    assert(docs[a].0 != docs[b].0);
                }
            }
            Ok(build(parts))
        },
    }
}

/// Reads a JSON text into a [`Tree`].
///
/// The text is parsed by `serde_json`; what it finds becomes the tree as [`lift`] says.
/// An error of either step is a `Deserialization` error with its message.
pub fn deserialize(s: &str) -> (r: Result<Tree, Error>)
    ensures
        decoded(s@) == match r {
            Ok(tree) => Ok::<Doc, ErrorView>(tree@),
            Err(error) => Err(error@),
        },
        r matches Ok(tree) ==> tree.wf(),
{
    match from_str(s) {
        Ok(found) => lift(&found),
        Err(message) => Err(refused(message)),
    }
}

/// Writes a [`Tree`] as JSON text: pretty-printed by `serde_json`, two spaces to a
/// level, keys in the order of the tree, no newline at the end.
///
/// A tree with an infinite or NaN float, and an error of `serde_json`, are
/// `Serialization` errors.
pub fn serialize(tree: &Tree) -> (r: Result<String, Error>)
    requires
        tree.wf(),
    ensures
        encoded(tree@) == match r {
            Ok(text) => Ok::<Seq<char>, ErrorView>(text@),
            Err(error) => Err(error@),
        },
{
    match lower(tree) {
        Ok(made) => written(to_string_pretty(&made)),
        Err(error) => Err(error),
    }
}

} // verus!
