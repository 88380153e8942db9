//! The TOML codec: `toml` reads and writes the text, this module moves between its value
//! and [`Tree`].

use crate::error::{
    null_not_supported, refused, root_not_table, written, written_as, Error, ErrorView,
};
use crate::model::{
    lemma_entries_error_stays, lemma_items_error_stays, lemma_normalize_well_formed,
    normalize, normalize_entries, normalize_items, null_free, well_formed, Doc, Numeral,
};
use crate::number::{carried, yaml_number, Float};
use crate::value::{entry_docs, item_docs, push_entry, Tree};
use vstd::prelude::*;

verus! {

/// `toml::Value`; the verifier does not look inside it.
#[verifier::external_type_specification]
#[verifier::external_body]
pub struct ExTomlValue(::toml::Value);

/// The document that a `toml::Value` holds: text, an integer, a float, a boolean, a date
/// as the text that `Display` writes for it, a list, or a table whose keys are text, in
/// the order in which the table keeps them.
pub uninterp spec fn toml_doc(value: ::toml::Value) -> Doc;

/// What `toml::from_str` makes of a text: the document of the value, or the message that
/// `Display` writes for its error.
pub uninterp spec fn toml_parsed(text: Seq<char>) -> Result<Doc, Seq<char>>;

/// What `toml::to_string` makes of a value that holds `doc`: the text, or the message that
/// `Display` writes for its error.
pub uninterp spec fn toml_rendered(doc: Doc) -> Result<Seq<char>, Seq<char>>;

/// One node of a `toml::Value`, with its children still in place. A float has moved
/// into the carrier of floats, a date into its text.
pub enum TomlNode<'a> {
    String(&'a String),
    Integer(i64),
    Float(serde_yaml::Number),
    Boolean(bool),
    Datetime(String),
    Array(&'a Vec<::toml::Value>),
    Table(Vec<(&'a String, &'a ::toml::Value)>),
}

impl<'a> TomlNode<'a> {
    /// Whether the node is what was taken out of a value that holds `doc`. A float is in
    /// its carrier, which keeps every pattern but that of a NaN.
    pub open spec fn holds(self, doc: Doc) -> bool {
        match self {
            TomlNode::String(text) => doc == Doc::Text(text@),
            TomlNode::Integer(i) => doc == Doc::Int(i as int),
            TomlNode::Float(carrier) => doc matches Doc::Float(bits) && yaml_number(carrier)
                == Numeral::Float(carried(bits)),
            TomlNode::Boolean(b) => doc == Doc::Bool(b),
            TomlNode::Datetime(text) => doc == Doc::Datetime(text@),
            TomlNode::Array(items) => doc == Doc::List(
                Seq::new(items@.len(), |i: int| toml_doc(items@[i])),
            ),
            TomlNode::Table(entries) => doc == Doc::Table(
                Seq::new(
                    entries@.len(),
                    |i: int| (Doc::Text(entries@[i].0@), toml_doc(*entries@[i].1)),
                ),
            ),
        }
    }

    /// Whether no two entries of a table have the same key.
    pub open spec fn keys_differ(self) -> bool {
        self matches TomlNode::Table(entries) ==> forall|i: int, j: int|
            0 <= i < j < entries@.len() ==> (#[trigger] entries@[i]).0@ != (
            #[trigger] entries@[j]).0@
    }
}

/// One node of a `toml::Value` to be made, with its children made already. A float comes
/// in the carrier of floats.
pub enum TomlParts {
    String(String),
    Integer(i64),
    Float(serde_yaml::Number),
    Boolean(bool),
    Array(Vec<::toml::Value>),
    Table(Vec<(String, ::toml::Value)>),
}

impl TomlParts {
    /// The document that the node will hold.
    pub open spec fn doc(self) -> Doc {
        match self {
            TomlParts::String(text) => Doc::Text(text@),
            TomlParts::Integer(i) => Doc::Int(i as int),
            TomlParts::Float(carrier) => yaml_number(carrier).doc(),
            TomlParts::Boolean(b) => Doc::Bool(b),
            TomlParts::Array(items) => Doc::List(
                Seq::new(items@.len(), |i: int| toml_doc(items@[i])),
            ),
            TomlParts::Table(entries) => Doc::Table(
                Seq::new(
                    entries@.len(),
                    |i: int| (Doc::Text(entries@[i].0@), toml_doc(entries@[i].1)),
                ),
            ),
        }
    }

    /// Whether the node can be made: a float comes in a carrier that holds a float, and no
    /// two entries of a table have the same key.
    pub open spec fn can_be_made(self) -> bool {
        match self {
            TomlParts::Float(carrier) => yaml_number(carrier) is Float,
            TomlParts::Table(entries) => forall|i: int, j: int|
                0 <= i < j < entries@.len() ==> (#[trigger] entries@[i]).0@ != (
                #[trigger] entries@[j]).0@,
            _ => true,
        }
    }
}

/// Calls `toml::from_str` for a `toml::Value`, and `to_string` on its error. The contract
/// names what comes back: [`toml_parsed`] of the text.
#[verifier::external_body]
fn from_str(text: &str) -> (r: Result<::toml::Value, String>)
    ensures
        toml_parsed(text@) == match r {
            Ok(found) => Ok::<Doc, Seq<char>>(toml_doc(found)),
            Err(message) => Err(message@),
        },
{
    match ::toml::from_str::<::toml::Value>(text) {
        Ok(found) => Ok(found),
        Err(error) => Err(error.to_string()),
    }
}

/// Calls `toml::to_string`, and `to_string` on its error. The contract names what comes
/// back: [`toml_rendered`] of the document that the value holds.
#[verifier::external_body]
fn to_string(made: &::toml::Value) -> (r: Result<String, String>)
    ensures
        toml_rendered(toml_doc(*made)) == match r {
            Ok(text) => Ok::<Seq<char>, Seq<char>>(text@),
            Err(message) => Err(message@),
        },
{
    match ::toml::to_string(made) {
        Ok(text) => Ok(text),
        Err(error) => Err(error.to_string()),
    }
}

/// Tells the variants of `toml::Value` apart and hands out what each holds. A float goes
/// through `serde_yaml::Number::from` into the carrier of floats, a date through
/// `to_string` into its text. The entries of a table come in the order of its iterator,
/// which is the order of insertion; a table is a map and holds no key twice.
#[verifier::external_body]
fn peel<'a>(found: &'a ::toml::Value) -> (node: TomlNode<'a>)
    ensures
        node.holds(toml_doc(*found)),
        node.keys_differ(),
{
    match found {
        ::toml::Value::String(text) => TomlNode::String(text),
        ::toml::Value::Integer(i) => TomlNode::Integer(*i),
        ::toml::Value::Float(x) => TomlNode::Float(serde_yaml::Number::from(*x)),
        ::toml::Value::Boolean(b) => TomlNode::Boolean(*b),
        ::toml::Value::Datetime(date) => TomlNode::Datetime(date.to_string()),
        ::toml::Value::Array(items) => TomlNode::Array(items),
        ::toml::Value::Table(entries) => TomlNode::Table(entries.iter().collect()),
    }
}

/// Makes the variant of `toml::Value` for each kind of node. A float comes out of its
/// carrier through `serde_yaml::Number::as_f64`, which hands out the float that the
/// carrier holds. A table is collected into a `toml::value::Table`, which keeps entries
/// with different keys in the order in which they come.
#[verifier::external_body]
fn build(parts: TomlParts) -> (made: ::toml::Value)
    requires
        parts.can_be_made(),
    ensures
        toml_doc(made) == parts.doc(),
{
    match parts {
        TomlParts::String(text) => ::toml::Value::String(text),
        TomlParts::Integer(i) => ::toml::Value::Integer(i),
        TomlParts::Float(carrier) => ::toml::Value::Float(carrier.as_f64().unwrap_or_default()),
        TomlParts::Boolean(b) => ::toml::Value::Boolean(b),
        TomlParts::Array(items) => ::toml::Value::Array(items),
        TomlParts::Table(entries) => ::toml::Value::Table(entries.into_iter().collect()),
    }
}

/// What [`deserialize`] gives for a text, as the view of its result.
pub open spec fn decoded(text: Seq<char>) -> Result<Doc, ErrorView> {
    match toml_parsed(text) {
        Err(message) => Err(ErrorView::Deserialization(message)),
        Ok(doc) => normalize(doc),
    }
}

/// What [`serialize`] gives for the view of a tree, as the view of its result: TOML has
/// no null, and the root of a TOML document is a table.
pub open spec fn encoded(doc: Doc) -> Result<Seq<char>, ErrorView> {
    if !null_free(doc) {
        Err(ErrorView::Serialization(null_not_supported()))
    } else if !(doc is Table) {
        Err(ErrorView::Serialization(root_not_table()))
    } else {
        written_as(toml_rendered(doc))
    }
}

/// Turns what `toml` parsed into a [`Tree`].
///
/// The result is [`normalize`] of the parsed document: a date becomes its text, every
/// other node stays what it is.
pub fn lift(found: &::toml::Value) -> (r: Result<Tree, Error>)
    ensures
        normalize(toml_doc(*found)) == match r {
            Ok(tree) => Ok::<Doc, ErrorView>(tree@),
            Err(error) => Err(error@),
        },
        r matches Ok(tree) ==> tree.wf(),
    decreases toml_doc(*found),
{
    proof {
        lemma_normalize_well_formed(toml_doc(*found));
    }
    match peel(found) {
        TomlNode::String(text) => Ok(Tree::String(text.clone())),
        TomlNode::Integer(i) => Ok(Tree::Integer(i)),
        TomlNode::Float(carrier) => Tree::of_number(carrier),
        TomlNode::Boolean(b) => Ok(Tree::Boolean(b)),
        TomlNode::Datetime(text) => Ok(Tree::String(text)),
        TomlNode::Array(items) => {
            let ghost docs = Seq::new(items@.len(), |k: int| toml_doc(items@[k]));
            let mut done: Vec<Tree> = Vec::new();
            let mut i: usize = 0;
            assert(item_docs(done@) =~= Seq::empty());
            while i < items.len()
                invariant
                    i <= items.len(),
                    docs == Seq::new(items@.len(), |k: int| toml_doc(items@[k])),
                    toml_doc(*found) == Doc::List(docs),
                    normalize_items(docs, i as nat) == Ok::<Seq<Doc>, ErrorView>(
                        item_docs(done@),
                    ),
                decreases items.len() - i,
            {
                assert(docs[i as int] == toml_doc(items@[i as int]));
                assert(Doc::List(docs)->List_0 == docs);
                match lift(&items[i]) {
                    Ok(item) => {
                        let ghost before = item_docs(done@);
                        let ghost doc = item@;
                        done.push(item);
                        assert(item_docs(done@) =~= before.push(doc));
                    },
                    Err(error) => {
                        proof {
                            lemma_items_error_stays(docs, (i + 1) as nat, docs.len());
                        }
                        return Err(error);
                    },
                }
                i += 1;
            }
            Ok(Tree::Sequence(done))
        },
        TomlNode::Table(entries) => {
            let ghost docs = Seq::new(
                entries@.len(),
                |k: int| (Doc::Text(entries@[k].0@), toml_doc(*entries@[k].1)),
            );
            let mut done: Vec<(String, Tree)> = Vec::new();
            let mut i: usize = 0;
            assert(entry_docs(done@) =~= Seq::empty());
            assert forall|a: int, b: int| 0 <= a < b < docs.len() implies (#[trigger] docs[a]).0
                != (#[trigger] docs[b]).0 by {
                assert(entries@[a].0@ != entries@[b].0@);
            }
            while i < entries.len()
                invariant
                    i <= entries.len(),
                    docs == Seq::new(
                        entries@.len(),
                        |k: int| (Doc::Text(entries@[k].0@), toml_doc(*entries@[k].1)),
                    ),
                    toml_doc(*found) == Doc::Table(docs),
                    normalize_entries(docs, i as nat) == Ok::<Seq<(Doc, Doc)>, ErrorView>(
                        entry_docs(done@),
                    ),
                    done@.len() == i,
                    forall|k: int| 0 <= k < i ==> (#[trigger] entry_docs(done@)[k]).0 == docs[k].0,
                    forall|a: int, b: int|
                        0 <= a < b < docs.len() ==> (#[trigger] docs[a]).0 != (
                        #[trigger] docs[b]).0,
                decreases entries.len() - i,
            {
                let key: &String = entries[i].0;
                let child: &::toml::Value = entries[i].1;
                assert(docs[i as int].1 == toml_doc(*child));
                assert(Doc::Table(docs)->Table_0 == docs);
                match lift(child) {
                    Ok(value) => {
                        assert forall|k: int| 0 <= k < done@.len() implies (#[trigger] entry_docs(
                            done@,
                        )[k]).0 != Doc::Text(key@) by {
                            assert(docs[k].0 != docs[i as int].0);
                        }
                        push_entry(&mut done, key.clone(), value);
                    },
                    Err(error) => {
                        proof {
                            lemma_entries_error_stays(docs, (i + 1) as nat, docs.len());
                        }
                        return Err(error);
                    },
                }
                i += 1;
            }
            Ok(Tree::Mapping(done))
        },
    }
}

/// Makes of a [`Tree`] the value that `toml` writes.
///
/// The value holds the document that the tree shows. TOML has no null: a tree that holds
/// one, at its root, in a sequence or in a mapping, is refused.
pub fn lower(tree: &Tree) -> (r: Result<::toml::Value, Error>)
    requires
        tree.wf(),
    ensures
        match r {
            Ok(made) => null_free(tree@) && toml_doc(made) == tree@,
            Err(error) => !null_free(tree@) && error@ == ErrorView::Serialization(
                null_not_supported(),
            ),
        },
    decreases tree,
{
    match tree {
        Tree::Null => Err(Error::null_not_supported()),
        Tree::Boolean(b) => Ok(build(TomlParts::Boolean(*b))),
        Tree::Integer(i) => Ok(build(TomlParts::Integer(*i))),
        Tree::Float(float) => Ok(build(TomlParts::Float(float.as_number().clone()))),
        Tree::String(text) => Ok(build(TomlParts::String(text.clone()))),
        Tree::Sequence(items) => {
            let ghost docs = item_docs(items@);
            assert(Doc::List(docs)->List_0 == docs);
            let mut made: Vec<::toml::Value> = Vec::new();
            let mut i: usize = 0;
            while i < items.len()
                invariant
                    i <= items.len(),
                    made@.len() == i,
                    docs == item_docs(items@),
                    tree@ == Doc::List(docs),
                    well_formed(tree@),
                    *tree == Tree::Sequence(*items),
                    forall|k: int| 0 <= k < i ==> toml_doc(#[trigger] made@[k]) == docs[k],
                    forall|k: int| 0 <= k < i ==> null_free(#[trigger] docs[k]),
                decreases items.len() - i,
            {
                assert(docs[i as int] == items@[i as int]@);
                assert(Doc::List(docs)->List_0 == docs);
                match lower(&items[i]) {
                    Ok(item) => made.push(item),
                    Err(error) => {
                        return Err(error);
                    },
                }
                i += 1;
            }
            let parts = TomlParts::Array(made);
            assert(parts.doc()->List_0 =~= docs);
            Ok(build(parts))
        },
        Tree::Mapping(entries) => {
            let ghost docs = entry_docs(entries@);
            assert(Doc::Table(docs)->Table_0 == docs);
            let mut made: Vec<(String, ::toml::Value)> = Vec::new();
            let mut i: usize = 0;
            while i < entries.len()
                invariant
                    i <= entries.len(),
                    made@.len() == i,
                    docs == entry_docs(entries@),
                    tree@ == Doc::Table(docs),
                    well_formed(tree@),
                    *tree == Tree::Mapping(*entries),
                    forall|k: int|
                        0 <= k < i ==> (Doc::Text((#[trigger] made@[k]).0@), toml_doc(made@[k].1))
                            == docs[k],
                    forall|k: int| 0 <= k < i ==> null_free((#[trigger] docs[k]).1),
                decreases entries.len() - i,
            {
                assert(docs[i as int] == (Doc::Text(entries@[i as int].0@), entries@[i as int].1@));
                assert(Doc::Table(docs)->Table_0 == docs);
                match lower(&entries[i].1) {
                    Ok(value) => made.push((entries[i].0.clone(), value)),
                    Err(error) => {
                        return Err(error);
                    },
                }
                i += 1;
            }
            let parts = TomlParts::Table(made);
            assert(parts.doc()->Table_0 =~= docs);
            assert(parts.can_be_made()) by {
                assert forall|a: int, b: int| 0 <= a < b < made@.len() implies (
                #[trigger] made@[a]).0@ != (#[trigger] made@[b]).0@ by {
                    assert(docs[a].0 != docs[b].0);
                }
            }
            Ok(build(parts))
        },
    }
}

/// Reads a TOML text into a [`Tree`].
///
/// The text is parsed by `toml`; what it finds becomes the tree as [`lift`] says. An
/// error of either step is a `Deserialization` error with its message.
pub fn deserialize(s: &str) -> (r: Result<Tree, Error>)
    ensures
        decoded(s@) == match r {
            Ok(tree) => Ok::<Doc, ErrorView>(tree@),
            Err(error) => Err(error@),
        },
        r matches Ok(tree) ==> tree.wf(),
{
    match from_str(s) {
        Ok(found) => lift(&found),
        Err(message) => Err(refused(message)),
    }
}

/// Writes a [`Tree`] as TOML text, as `toml` writes it: nested tables under `[path]`
/// headers, arrays of scalars on one line, a newline at the end.
///
/// A tree that holds a null anywhere, a tree whose root is no mapping, and an error of
/// `toml` are `Serialization` errors; the null is reported first.
pub fn serialize(tree: &Tree) -> (r: Result<String, Error>)
    requires
        tree.wf(),
    ensures
        encoded(tree@) == match r {
            Ok(text) => Ok::<Seq<char>, ErrorView>(text@),
            Err(error) => Err(error@),
        },
        !null_free(tree@) ==> r is Err && r->Err_0@ == ErrorView::Serialization(
            null_not_supported(),
        ),
{
    match lower(tree) {
        Err(error) => Err(error),
        Ok(made) => match tree {
            Tree::Mapping(_) => written(to_string(&made)),
            _ => Err(Error::root_not_table()),
        },
    }
}

} // verus!
