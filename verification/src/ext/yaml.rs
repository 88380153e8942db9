//! The YAML codec: `serde_yaml` reads and writes the text, this module moves between its
//! value and [`Tree`].

use crate::error::{refused, written, written_as, Error, ErrorView};
use crate::model::{
    key_text, lemma_entries_error_stays, lemma_items_error_stays, lemma_normalize_well_formed,
    normalize, normalize_entries, normalize_items, well_formed, Doc,
};
use crate::number::{number_as_i64, number_from_i64, yaml_number};
use crate::text::integer_to_text;
use crate::value::{entry_docs, item_docs, push_entry, upsert_entry, Tree};
use vstd::prelude::*;

verus! {

/// `serde_yaml::Value`; the verifier does not look inside it.
#[verifier::external_type_specification]
#[verifier::external_body]
pub struct ExYamlValue(serde_yaml::Value);

/// The document that a `serde_yaml::Value` holds: null, a boolean, a number as
/// [`yaml_number`] gives it, text, a list, a table whose keys are documents too, in the
/// order in which the mapping keeps them, or a tagged node.
pub uninterp spec fn yaml_doc(value: serde_yaml::Value) -> Doc;

/// What `serde_yaml::from_str` makes of a text: the document of the value, or the message
/// that `Display` writes for its error.
pub uninterp spec fn yaml_parsed(text: Seq<char>) -> Result<Doc, Seq<char>>;

/// What `serde_yaml::to_string` makes of a value that holds `doc`: the text, or the
/// message that `Display` writes for its error.
pub uninterp spec fn yaml_rendered(doc: Doc) -> Result<Seq<char>, Seq<char>>;

/// One node of a `serde_yaml::Value`, with its children still in place.
pub enum YamlNode<'a> {
    Null,
    Bool(bool),
    Number(&'a serde_yaml::Number),
    String(&'a String),
    Sequence(&'a Vec<serde_yaml::Value>),
    Mapping(Vec<(&'a serde_yaml::Value, &'a serde_yaml::Value)>),
    Tagged,
}

impl<'a> YamlNode<'a> {
    /// The document that the node holds.
    pub open spec fn doc(self) -> Doc {
        match self {
            YamlNode::Null => Doc::Null,
            YamlNode::Bool(b) => Doc::Bool(b),
            YamlNode::Number(number) => yaml_number(*number).doc(),
            YamlNode::String(text) => Doc::Text(text@),
            YamlNode::Sequence(items) => Doc::List(
                Seq::new(items@.len(), |i: int| yaml_doc(items@[i])),
            ),
            YamlNode::Mapping(entries) => Doc::Table(
                Seq::new(
                    entries@.len(),
                    |i: int| (yaml_doc(*entries@[i].0), yaml_doc(*entries@[i].1)),
                ),
            ),
            YamlNode::Tagged => Doc::Tagged,
        }
    }

    /// Whether no two entries of a mapping have the same text as their key.
    pub open spec fn keys_differ(self) -> bool {
        self matches YamlNode::Mapping(entries) ==> forall|i: int, j: int|
            0 <= i < j < entries@.len() && yaml_doc(*(#[trigger] entries@[i]).0) is Text
                && yaml_doc(*(#[trigger] entries@[j]).0) is Text ==> yaml_doc(*entries@[i].0)
                != yaml_doc(*entries@[j].0)
    }
}

/// One node of a `serde_yaml::Value` to be made, with its children made already.
pub enum YamlParts {
    Null,
    Bool(bool),
    Number(serde_yaml::Number),
    String(String),
    Sequence(Vec<serde_yaml::Value>),
    Mapping(Vec<(String, serde_yaml::Value)>),
}

impl YamlParts {
    /// The document that the node will hold.
    pub open spec fn doc(self) -> Doc {
        match self {
            YamlParts::Null => Doc::Null,
            YamlParts::Bool(b) => Doc::Bool(b),
            YamlParts::Number(number) => yaml_number(number).doc(),
            YamlParts::String(text) => Doc::Text(text@),
            YamlParts::Sequence(items) => Doc::List(
                Seq::new(items@.len(), |i: int| yaml_doc(items@[i])),
            ),
            YamlParts::Mapping(entries) => Doc::Table(
                Seq::new(
                    entries@.len(),
                    |i: int| (Doc::Text(entries@[i].0@), yaml_doc(entries@[i].1)),
                ),
            ),
        }
    }

    /// Whether no two entries of a mapping to be made have the same key.
    pub open spec fn keys_differ(self) -> bool {
        self matches YamlParts::Mapping(entries) ==> forall|i: int, j: int|
            0 <= i < j < entries@.len() ==> (#[trigger] entries@[i]).0@ != (
            #[trigger] entries@[j]).0@
    }
}

/// Calls `serde_yaml::from_str` for a `serde_yaml::Value`, and `to_string` on its error.
/// The contract names what comes back: [`yaml_parsed`] of the text.
#[verifier::external_body]
fn from_str(text: &str) -> (r: Result<serde_yaml::Value, String>)
    ensures
        yaml_parsed(text@) == match r {
            Ok(found) => Ok::<Doc, Seq<char>>(yaml_doc(found)),
            Err(message) => Err(message@),
        },
{
    match serde_yaml::from_str::<serde_yaml::Value>(text) {
        Ok(found) => Ok(found),
        Err(error) => Err(error.to_string()),
    }
}

/// Calls `serde_yaml::to_string`, and `to_string` on its error. The contract names what
/// comes back: [`yaml_rendered`] of the document that the value holds. It speaks of
/// well-formed documents only: of a tagged node the document does not say what is
/// written.
#[verifier::external_body]
fn to_string(made: &serde_yaml::Value) -> (r: Result<String, String>)
    requires
        well_formed(yaml_doc(*made)),
    ensures
        yaml_rendered(yaml_doc(*made)) == match r {
            Ok(text) => Ok::<Seq<char>, Seq<char>>(text@),
            Err(message) => Err(message@),
        },
{
    match serde_yaml::to_string(made) {
        Ok(text) => Ok(text),
        Err(error) => Err(error.to_string()),
    }
}

/// Tells the variants of `serde_yaml::Value` apart and hands out what each holds. The
/// entries of a mapping come in the order of its iterator, which is the order of
/// insertion; a mapping is a map and holds no key twice.
#[verifier::external_body]
fn peel<'a>(found: &'a serde_yaml::Value) -> (node: YamlNode<'a>)
    ensures
        node.doc() == yaml_doc(*found),
        node.keys_differ(),
{
    match found {
        serde_yaml::Value::Null => YamlNode::Null,
        serde_yaml::Value::Bool(b) => YamlNode::Bool(*b),
        serde_yaml::Value::Number(number) => YamlNode::Number(number),
        serde_yaml::Value::String(text) => YamlNode::String(text),
        serde_yaml::Value::Sequence(items) => YamlNode::Sequence(items),
        serde_yaml::Value::Mapping(entries) => YamlNode::Mapping(entries.iter().collect()),
        serde_yaml::Value::Tagged(_) => YamlNode::Tagged,
    }
}

/// Makes the variant of `serde_yaml::Value` for each kind of node. The keys of a mapping
/// become `serde_yaml::Value::String`, and the entries are collected into a
/// `serde_yaml::Mapping`, which keeps entries with different keys in the order in which
/// they come.
#[verifier::external_body]
fn build(parts: YamlParts) -> (made: serde_yaml::Value)
    requires
        parts.keys_differ(),
    ensures
        yaml_doc(made) == parts.doc(),
{
    match parts {
        YamlParts::Null => serde_yaml::Value::Null,
        YamlParts::Bool(b) => serde_yaml::Value::Bool(b),
        YamlParts::Number(number) => serde_yaml::Value::Number(number),
        YamlParts::String(text) => serde_yaml::Value::String(text),
        YamlParts::Sequence(items) => serde_yaml::Value::Sequence(items),
        YamlParts::Mapping(entries) => serde_yaml::Value::Mapping(
            entries.into_iter().map(|(key, made)| (serde_yaml::Value::String(key), made)).collect(),
        ),
    }
}

/// What [`deserialize`] gives for a text, as the view of its result.
pub open spec fn decoded(text: Seq<char>) -> Result<Doc, ErrorView> {
    match yaml_parsed(text) {
        Err(message) => Err(ErrorView::Deserialization(message)),
        Ok(doc) => normalize(doc),
    }
}

/// What [`serialize`] gives for the view of a tree, as the view of its result.
pub open spec fn encoded(doc: Doc) -> Result<Seq<char>, ErrorView> {
    written_as(yaml_rendered(doc))
}

/// The text under which a mapping key is kept, and whether the key was text already:
/// text as it is, a boolean as `true` or `false`, an integer of 64 signed bits in decimal;
/// `None` for every other key.
fn lift_key(key: &serde_yaml::Value) -> (r: Option<(String, bool)>)
    ensures
        key_text(yaml_doc(*key)) == match r {
            Some(kept) => Some(kept.0@),
            None => None::<Seq<char>>,
        },
        r matches Some(kept) ==> kept.1 == (yaml_doc(*key) is Text),
{
    match peel(key) {
        YamlNode::String(text) => Some((text.clone(), true)),
        YamlNode::Bool(b) => Some(
            (
                if b {
                    "true".to_owned()
                } else {
                    "false".to_owned()
                },
                false,
            ),
        ),
        YamlNode::Number(number) => match number_as_i64(number) {
            Some(i) => Some((integer_to_text(i), false)),
            None => None,
        },
        _ => None,
    }
}

/// Turns what `serde_yaml` parsed into a [`Tree`].
///
/// The result is [`normalize`] of the parsed document: the same document where it holds
/// what a tree can hold, else the error of the first thing that a tree cannot hold: an
/// integer outside 64 signed bits, a tagged node, a mapping key that is neither text nor
/// a boolean nor such an integer. A key that is no text is kept as its text.
pub fn lift(found: &serde_yaml::Value) -> (r: Result<Tree, Error>)
    ensures
        normalize(yaml_doc(*found)) == match r {
            Ok(tree) => Ok::<Doc, ErrorView>(tree@),
            Err(error) => Err(error@),
        },
        r matches Ok(tree) ==> tree.wf(),
    decreases yaml_doc(*found),
{
    proof {
        lemma_normalize_well_formed(yaml_doc(*found));
    }
    match peel(found) {
        YamlNode::Null => Ok(Tree::Null),
        YamlNode::Bool(b) => Ok(Tree::Boolean(b)),
        YamlNode::Number(number) => Tree::of_number(number.clone()),
        YamlNode::String(text) => Ok(Tree::String(text.clone())),
        YamlNode::Tagged => Err(Error::tag_not_supported()),
        YamlNode::Sequence(items) => {
            let ghost docs = Seq::new(items@.len(), |k: int| yaml_doc(items@[k]));
            let mut done: Vec<Tree> = Vec::new();
            let mut i: usize = 0;
            assert(item_docs(done@) =~= Seq::empty());
            while i < items.len()
                invariant
                    i <= items.len(),
                    docs == Seq::new(items@.len(), |k: int| yaml_doc(items@[k])),
                    yaml_doc(*found) == Doc::List(docs),
                    normalize_items(docs, i as nat) == Ok::<Seq<Doc>, ErrorView>(
                        item_docs(done@),
                    ),
                decreases items.len() - i,
            {
                assert(docs[i as int] == yaml_doc(items@[i as int]));
                assert(Doc::List(docs)->List_0 == docs);
                match lift(&items[i]) {
                    Ok(item) => {
                        let ghost before = item_docs(done@);
                        let ghost doc = item@;
                        done.push(item);
                        assert(item_docs(done@) =~= before.push(doc));
                    },
                    Err(error) => {
                        proof {
                            lemma_items_error_stays(docs, (i + 1) as nat, docs.len());
                        }
                        return Err(error);
                    },
                }
                i += 1;
            }
            Ok(Tree::Sequence(done))
        },
        YamlNode::Mapping(entries) => {
            let ghost docs = Seq::new(
                entries@.len(),
                |k: int| (yaml_doc(*entries@[k].0), yaml_doc(*entries@[k].1)),
            );
            let mut done: Vec<(String, Tree)> = Vec::new();
            // Whether every key so far was text; then no key has come twice.
            let mut plain = true;
            let mut i: usize = 0;
            assert(entry_docs(done@) =~= Seq::empty());
            assert forall|a: int, b: int|
                0 <= a < b < docs.len() && (#[trigger] docs[a]).0 is Text && (
                #[trigger] docs[b]).0 is Text implies docs[a].0 != docs[b].0 by {
                assert(yaml_doc(*entries@[a].0) != yaml_doc(*entries@[b].0));
            }
            while i < entries.len()
                invariant
                    i <= entries.len(),
                    docs == Seq::new(
                        entries@.len(),
                        |k: int| (yaml_doc(*entries@[k].0), yaml_doc(*entries@[k].1)),
                    ),
                    yaml_doc(*found) == Doc::Table(docs),
                    normalize_entries(docs, i as nat) == Ok::<Seq<(Doc, Doc)>, ErrorView>(
                        entry_docs(done@),
                    ),
                    plain ==> done@.len() == i,
                    plain ==> forall|k: int|
                        0 <= k < i ==> (#[trigger] entry_docs(done@)[k]).0 == docs[k].0,
                    forall|a: int, b: int|
                        0 <= a < b < docs.len() && (#[trigger] docs[a]).0 is Text && (
                        #[trigger] docs[b]).0 is Text ==> docs[a].0 != docs[b].0,
                decreases entries.len() - i,
            {
                let child: &serde_yaml::Value = entries[i].1;
                assert(docs[i as int] == (yaml_doc(*entries@[i as int].0), yaml_doc(*child)));
                assert(Doc::Table(docs)->Table_0 == docs);
                let (key, is_text) = match lift_key(entries[i].0) {
                    Some(kept) => kept,
                    None => {
                        proof {
                            lemma_entries_error_stays(docs, (i + 1) as nat, docs.len());
                        }
                        return Err(Error::key_not_text());
                    },
                };
                match lift(child) {
                    Ok(value) => {
                        if plain && is_text {
                            assert forall|k: int| 0 <= k < done@.len() implies (
                            #[trigger] entry_docs(done@)[k]).0 != Doc::Text(key@) by {
                                assert(docs[k].0 is Text);
                                assert(docs[k].0 != docs[i as int].0);
                            }
                            push_entry(&mut done, key, value);
                        } else {
                            plain = false;
                            upsert_entry(&mut done, key, value);
                        }
                    },
                    Err(error) => {
                        proof {
                            lemma_entries_error_stays(docs, (i + 1) as nat, docs.len());
                        }
                        return Err(error);
                    },
                }
                i += 1;
            }
            Ok(Tree::Mapping(done))
        },
    }
}

/// Makes of a [`Tree`] the value that `serde_yaml` writes. The value holds the document
/// that the tree shows.
pub fn lower(tree: &Tree) -> (made: serde_yaml::Value)
    requires
        tree.wf(),
    ensures
        yaml_doc(made) == tree@,
    decreases tree,
{
    match tree {
        Tree::Null => build(YamlParts::Null),
        Tree::Boolean(b) => build(YamlParts::Bool(*b)),
        Tree::Integer(i) => build(YamlParts::Number(number_from_i64(*i))),
        Tree::Float(float) => build(YamlParts::Number(float.as_number().clone())),
        Tree::String(text) => build(YamlParts::String(text.clone())),
        Tree::Sequence(items) => {
            let ghost docs = item_docs(items@);
            assert(Doc::List(docs)->List_0 == docs);
            let mut made: Vec<serde_yaml::Value> = Vec::new();
            let mut i: usize = 0;
            while i < items.len()
                invariant
                    i <= items.len(),
                    made@.len() == i,
                    docs == item_docs(items@),
                    tree@ == Doc::List(docs),
                    well_formed(tree@),
                    *tree == Tree::Sequence(*items),
                    forall|k: int| 0 <= k < i ==> yaml_doc(#[trigger] made@[k]) == docs[k],
                decreases items.len() - i,
            {
                assert(docs[i as int] == items@[i as int]@);
                assert(Doc::List(docs)->List_0 == docs);
                let item = lower(&items[i]);
                made.push(item);
                i += 1;
            }
            let parts = YamlParts::Sequence(made);
            assert(parts.doc()->List_0 =~= docs);
            build(parts)
        },
        Tree::Mapping(entries) => {
            let ghost docs = entry_docs(entries@);
            assert(Doc::Table(docs)->Table_0 == docs);
            let mut made: Vec<(String, serde_yaml::Value)> = Vec::new();
            let mut i: usize = 0;
            while i < entries.len()
                invariant
                    i <= entries.len(),
                    made@.len() == i,
                    docs == entry_docs(entries@),
                    tree@ == Doc::Table(docs),
                    well_formed(tree@),
                    *tree == Tree::Mapping(*entries),
                    forall|k: int|
                        0 <= k < i ==> (Doc::Text((#[trigger] made@[k]).0@), yaml_doc(made@[k].1))
                            == docs[k],
                decreases entries.len() - i,
            {
                assert(docs[i as int] == (Doc::Text(entries@[i as int].0@), entries@[i as int].1@));
                assert(Doc::Table(docs)->Table_0 == docs);
                let value = lower(&entries[i].1);
                made.push((entries[i].0.clone(), value));
                i += 1;
            }
            let parts = YamlParts::Mapping(made);
            assert(parts.doc()->Table_0 =~= docs);
            assert(parts.keys_differ()) by {
                assert forall|a: int, b: int| 0 <= a < b < made@.len() implies (
                #[trigger] made@[a]).0@ != (#[trigger] made@[b]).0@ by {
                    assert(docs[a].0 != docs[b].0);
                }
            }
            build(parts)
        },
    }
}

/// Reads a YAML text into a [`Tree`].
///
/// The text is parsed by `serde_yaml`; what it finds becomes the tree as [`lift`] says.
/// An error of either step is a `Deserialization` error with its message.
pub fn deserialize(s: &str) -> (r: Result<Tree, Error>)
    ensures
        decoded(s@) == match r {
            Ok(tree) => Ok::<Doc, ErrorView>(tree@),
            Err(error) => Err(error@),
        },
        r matches Ok(tree) ==> tree.wf(),
{
    match from_str(s) {
        Ok(found) => lift(&found),
        Err(message) => Err(refused(message)),
    }
}

/// Writes a [`Tree`] as YAML text: block style as `serde_yaml` writes it, two spaces to a
/// level, keys in the order of the tree, a newline at the end.
///
/// An error of `serde_yaml` is a `Serialization` error.
pub fn serialize(tree: &Tree) -> (r: Result<String, Error>)
    requires
        tree.wf(),
    ensures
        encoded(tree@) == match r {
            Ok(text) => Ok::<Seq<char>, ErrorView>(text@),
            Err(error) => Err(error@),
        },
{
    let made = lower(tree);
    written(to_string(&made))
}

} // verus!
