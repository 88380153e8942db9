//! The generic value tree that every codec reads and writes.

use crate::error::{Error, ErrorView};
use crate::model::{
    distinct_keys, floats_kept, lemma_position_of_new_key, normalize, position, upsert,
    well_formed, Doc,
};
use crate::number::{number_as_i64, yaml_number, Float};
use vstd::prelude::*;

verus! {

/// The generic value tree.
#[derive(Debug, PartialEq)]
pub enum Tree {
    Null,
    Boolean(bool),
    Integer(i64),
    Float(Float),
    String(String),
    Sequence(Vec<Tree>),
    /// The entries in insertion order.
    Mapping(Vec<(String, Tree)>),
}

impl View for Tree {
    type V = Doc;

    open spec fn view(&self) -> Doc
        decreases self,
    {
        match self {
            Tree::Null => Doc::Null,
            Tree::Boolean(b) => Doc::Bool(*b),
            Tree::Integer(i) => Doc::Int(*i as int),
            Tree::Float(f) => Doc::Float(f.bits()),
            Tree::String(s) => Doc::Text(s@),
            Tree::Sequence(items) => Doc::List(item_docs(items@)),
            Tree::Mapping(entries) => Doc::Table(entry_docs(entries@)),
        }
    }
}

/// The views of the items of a sequence, in order.
pub open spec fn item_docs(items: Seq<Tree>) -> Seq<Doc>
    decreases items,
{
    Seq::new(items.len(), |i: int| if 0 <= i < items.len() { items[i]@ } else { Doc::Null })
}

/// The views of the entries of a mapping, in order; each key is a `Doc::Text`.
pub open spec fn entry_docs(entries: Seq<(String, Tree)>) -> Seq<(Doc, Doc)>
    decreases entries,
{
    Seq::new(
        entries.len(),
        |i: int|
            if 0 <= i < entries.len() {
                (Doc::Text(entries[i].0@), entries[i].1@)
            } else {
                (Doc::Null, Doc::Null)
            },
    )
}

/// Writes `key` with `value` into the entries of a mapping that do not hold the key yet:
/// the entry goes to the end, as [`upsert_entry`] would put it, without the search.
pub fn push_entry(entries: &mut Vec<(String, Tree)>, key: String, value: Tree)
    requires
        forall|k: int|
            0 <= k < old(entries)@.len() ==> (#[trigger] entry_docs(old(entries)@)[k]).0
                != Doc::Text(key@),
    ensures
        entry_docs(final(entries)@) == upsert(
            entry_docs(old(entries)@),
            Doc::Text(key@),
            value@,
        ),
        entry_docs(final(entries)@) == entry_docs(old(entries)@).push((Doc::Text(key@), value@)),
        final(entries)@.len() == old(entries)@.len() + 1,
{
    let ghost before = entry_docs(entries@);
    let ghost wanted = Doc::Text(key@);
    proof {
        lemma_position_of_new_key(before, wanted);
    }
    entries.push((key, value));
    assert(entry_docs(entries@) =~= before.push((wanted, value@)));
}

/// Writes `key` with `value` into the entries of a mapping: a key that is there keeps its
/// place and takes the new value, a new key goes to the end. The key is searched for from
/// the front.
pub fn upsert_entry(entries: &mut Vec<(String, Tree)>, key: String, value: Tree)
    ensures
        entry_docs(final(entries)@) == upsert(
            entry_docs(old(entries)@),
            Doc::Text(key@),
            value@,
        ),
{
    let ghost before = entry_docs(entries@);
    let ghost wanted = Doc::Text(key@);
    let mut i: usize = 0;
    while i < entries.len()
        invariant
            i <= entries.len(),
            entries@ == old(entries)@,
            before == entry_docs(entries@),
            wanted == Doc::Text(key@),
            position(before, wanted, 0) == position(before, wanted, i as int),
        decreases entries.len() - i,
    {
        if entries[i].0 == key {
            entries[i] = (key, value);
            assert(entry_docs(entries@) =~= before.update(i as int, (wanted, value@)));
            return ;
        }
        i += 1;
    }
    entries.push((key, value));
    assert(entry_docs(entries@) =~= before.push((wanted, value@)));
}

impl Tree {
    /// The tree for a number that a carrier of floats holds: an integer where it fits 64
    /// signed bits, an error for a larger integer, a float for a float.
    pub fn of_number(number: serde_yaml::Number) -> (r: Result<Tree, Error>)
        ensures
            normalize(yaml_number(number).doc()) == match r {
                Ok(tree) => Ok::<Doc, ErrorView>(tree@),
                Err(error) => Err(error@),
            },
            r matches Ok(tree) ==> tree@ == yaml_number(number).doc(),
    {
        match number_as_i64(&number) {
            Some(i) => Ok(Tree::Integer(i)),
            None => match Float::new(number) {
                Some(float) => Ok(Tree::Float(float)),
                None => Err(Error::integer_out_of_range()),
            },
        }
    }

    /// The invariant of a `Tree`: no mapping has one key twice.
    pub open spec fn wf(&self) -> bool {
        well_formed(self@)
    }

    /// Tests the invariant. Every float of the tree is found in its carrier on the way.
    pub fn is_wf(&self) -> (r: bool)
        ensures
            r == self.wf(),
            floats_kept(self@),
        decreases self,
    {
        match self {
            Tree::Float(float) => {
                let _ = float.as_number();
                true
            },
            Tree::Sequence(items) => {
                let ghost docs = item_docs(items@);
                assert(Doc::List(docs)->List_0 == docs);
                let mut ok = true;
                let mut i: usize = 0;
                while i < items.len()
                    invariant
                        i <= items.len(),
                        docs == item_docs(items@),
                        *self == Tree::Sequence(*items),
                        ok == forall|k: int| 0 <= k < i ==> well_formed(#[trigger] docs[k]),
                        forall|k: int| 0 <= k < i ==> floats_kept(#[trigger] docs[k]),
                    decreases items.len() - i,
                {
                    assert(docs[i as int] == items@[i as int]@);
                    assert(self->Sequence_0 == *items);
                    let item_ok = items[i].is_wf();
                    ok = ok && item_ok;
                    i += 1;
                }
                ok
            },
            Tree::Mapping(entries) => {
                let ghost docs = entry_docs(entries@);
                assert(Doc::Table(docs)->Table_0 == docs);
                let mut ok = true;
                let mut i: usize = 0;
                while i < entries.len()
                    invariant
                        i <= entries.len(),
                        docs == entry_docs(entries@),
                        *self == Tree::Mapping(*entries),
                        ok == ((forall|k: int| 0 <= k < i ==> well_formed((#[trigger] docs[k]).1))
                            && distinct_keys(docs.take(i as int))),
                        forall|k: int| 0 <= k < i ==> floats_kept((#[trigger] docs[k]).1),
                    decreases entries.len() - i,
                {
                    assert(docs[i as int] == (
                        Doc::Text(entries@[i as int].0@),
                        entries@[i as int].1@,
                    ));
                    assert(self->Mapping_0 == *entries);
                    let value_ok = entries[i].1.is_wf();
                    let fresh = !key_stands_before(entries, i);
                    proof {
                        let before = docs.take(i as int);
                        let after = docs.take(i + 1);
                        assert(forall|k: int| 0 <= k < i ==> before[k] == docs[k]);
                        assert(forall|k: int| 0 <= k <= i ==> after[k] == docs[k]);
                        if distinct_keys(after) {
                            assert forall|a: int, b: int| 0 <= a < b < before.len() implies (
                            #[trigger] before[a]).0 != (#[trigger] before[b]).0 by {
                                assert(after[a].0 != after[b].0);
                            }
                            assert forall|k: int| 0 <= k < i implies (#[trigger] docs[k]).0
                                != docs[i as int].0 by {
                                assert(after[k].0 != after[i as int].0);
                            }
                        }
                        if distinct_keys(before) && fresh {
                            assert forall|a: int, b: int| 0 <= a < b < after.len() implies (
                            #[trigger] after[a]).0 != (#[trigger] after[b]).0 by {
                                if b < i {
                                    assert(before[a].0 != before[b].0);
                                }
                            }
                        }
                    }
                    ok = ok && value_ok && fresh;
                    i += 1;
                }
                assert(docs.take(i as int) =~= docs);
                assert(forall|k: int| 0 <= k < docs.len() ==> (#[trigger] docs[k]).0 is Text);
                ok
            },
            _ => true,
        }
    }
}

/// Whether the key of the entry at `at` stands in an entry before it.
fn key_stands_before(entries: &Vec<(String, Tree)>, at: usize) -> (r: bool)
    requires
        at < entries.len(),
    ensures
        r == exists|k: int|
            0 <= k < at && (#[trigger] entry_docs(entries@)[k]).0 == entry_docs(
                entries@,
            )[at as int].0,
{
    let ghost docs = entry_docs(entries@);
    let mut j: usize = 0;
    while j < at
        invariant
            j <= at < entries.len(),
            docs == entry_docs(entries@),
            forall|k: int| 0 <= k < j ==> (#[trigger] docs[k]).0 != docs[at as int].0,
        decreases at - j,
    {
        if entries[j].0 == entries[at].0 {
            assert(docs[j as int].0 == docs[at as int].0);
            return true;
        }
        assert(docs[j as int].0 != docs[at as int].0);
        j += 1;
    }
    false
}

impl Clone for Tree {
    fn clone(&self) -> (r: Tree)
        ensures
            r@ == self@,
        decreases self,
    {
        match self {
            Tree::Null => Tree::Null,
            Tree::Boolean(b) => Tree::Boolean(*b),
            Tree::Integer(i) => Tree::Integer(*i),
            Tree::Float(float) => Tree::Float(float.clone()),
            Tree::String(text) => Tree::String(text.clone()),
            Tree::Sequence(items) => {
                let mut copy: Vec<Tree> = Vec::new();
                let mut i: usize = 0;
                while i < items.len()
                    invariant
                        i <= items.len(),
                        copy@.len() == i,
                        *self == Tree::Sequence(*items),
                        forall|k: int| 0 <= k < i ==> (#[trigger] copy@[k])@ == items@[k]@,
                    decreases items.len() - i,
                {
                    assert(self->Sequence_0 == *items);
                    copy.push(items[i].clone());
                    i += 1;
                }
                assert(item_docs(copy@) =~= item_docs(items@));
                Tree::Sequence(copy)
            },
            Tree::Mapping(entries) => {
                let mut copy: Vec<(String, Tree)> = Vec::new();
                let mut i: usize = 0;
                while i < entries.len()
                    invariant
                        i <= entries.len(),
                        copy@.len() == i,
                        *self == Tree::Mapping(*entries),
                        forall|k: int|
                            0 <= k < i ==> (#[trigger] copy@[k]).0@ == entries@[k].0@ && copy@[k].1@
                                == entries@[k].1@,
                    decreases entries.len() - i,
                {
                    assert(self->Mapping_0 == *entries);
                    copy.push((entries[i].0.clone(), entries[i].1.clone()));
                    i += 1;
                }
                assert(entry_docs(copy@) =~= entry_docs(entries@));
                Tree::Mapping(copy)
            },
        }
    }
}

} // verus!
