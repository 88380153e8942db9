//! The mathematical model of a document, and what reading one into a tree means.

use crate::error::{integer_out_of_range, key_not_text, tag_not_supported, ErrorView};
use crate::text::integer_text;
use crate::number::carried;
use vstd::prelude::*;

verus! {

/// A document as a mathematical tree.
///
/// It is both the view of a [`Tree`](crate::value::Tree) and the model of what a parser
/// hands back. A parser may hand back more than a `Tree` can hold: integers outside the
/// 64-bit signed range, dates, tagged nodes, and table keys that are not text.
///
/// A float stands as its IEEE 754 binary64 bit pattern.
pub enum Doc {
    Null,
    Bool(bool),
    Int(int),
    Float(u64),
    Text(Seq<char>),
    /// A date or time, as the text that the format writes for it.
    Datetime(Seq<char>),
    /// A node that carries an application tag; its tag and content are not modelled.
    Tagged,
    List(Seq<Doc>),
    /// The entries in document order, each a key and a value.
    Table(Seq<(Doc, Doc)>),
}

/// A number as a parser keeps it: an integer, or a float as its bit pattern.
pub enum Numeral {
    Int(int),
    Float(u64),
}

impl Numeral {
    /// The number as a document.
    pub open spec fn doc(self) -> Doc {
        match self {
            Numeral::Int(i) => Doc::Int(i),
            Numeral::Float(bits) => Doc::Float(bits),
        }
    }
}

/// Whether a bit pattern is a finite float: neither an infinity nor a NaN, whose
/// exponent bits are all ones.
pub open spec fn float_is_finite(bits: u64) -> bool {
    (bits / 0x10_0000_0000_0000) % 0x800 != 0x7ff
}

/// Whether a document is the view of a well-formed `Tree`: every integer fits 64 signed
/// bits, there is no date and no tagged node, every table key is text, and no table has
/// one key twice.
pub open spec fn well_formed(doc: Doc) -> bool
    decreases doc,
{
    match doc {
        Doc::Null => true,
        Doc::Bool(_) => true,
        Doc::Int(i) => i64::MIN <= i <= i64::MAX,
        Doc::Float(_) => true,
        Doc::Text(_) => true,
        Doc::Datetime(_) => false,
        Doc::Tagged => false,
        Doc::List(items) => forall|i: int|
            0 <= i < items.len() ==> well_formed(#[trigger] items[i]),
        Doc::Table(entries) => {
            &&& forall|i: int|
                0 <= i < entries.len() ==> (#[trigger] entries[i]).0 is Text && well_formed(
                    entries[i].1,
                )
            &&& distinct_keys(entries)
        },
    }
}

/// Whether no two entries have the same key.
pub open spec fn distinct_keys(entries: Seq<(Doc, Doc)>) -> bool {
    forall|i: int, j: int|
        0 <= i < j < entries.len() ==> (#[trigger] entries[i]).0 != (#[trigger] entries[j]).0
}

/// Whether every float in a document is one that the carrier of floats leaves as it is.
/// This holds of the view of every `Tree`, since its floats are made of a carrier. The
/// keys of tables are not looked at: in a well-formed document they are text.
pub open spec fn floats_kept(doc: Doc) -> bool
    decreases doc,
{
    match doc {
        Doc::Float(bits) => carried(bits) == bits,
        Doc::List(items) => forall|i: int|
            0 <= i < items.len() ==> floats_kept(#[trigger] items[i]),
        Doc::Table(entries) => forall|i: int|
            0 <= i < entries.len() ==> floats_kept((#[trigger] entries[i]).1),
        _ => true,
    }
}

/// Whether every float in a document is finite. The keys of tables are not looked at.
pub open spec fn all_finite(doc: Doc) -> bool
    decreases doc,
{
    match doc {
        Doc::Float(bits) => float_is_finite(bits),
        Doc::List(items) => forall|i: int|
            0 <= i < items.len() ==> all_finite(#[trigger] items[i]),
        Doc::Table(entries) => forall|i: int|
            0 <= i < entries.len() ==> all_finite((#[trigger] entries[i]).1),
        _ => true,
    }
}

/// Whether a document holds no null: not at its root, not in a list, not as a value in a
/// table. The keys of tables are not looked at.
pub open spec fn null_free(doc: Doc) -> bool
    decreases doc,
{
    match doc {
        Doc::Null => false,
        Doc::List(items) => forall|i: int|
            0 <= i < items.len() ==> null_free(#[trigger] items[i]),
        Doc::Table(entries) => forall|i: int|
            0 <= i < entries.len() ==> null_free((#[trigger] entries[i]).1),
        _ => true,
    }
}

/// The text under which a `Tree` keeps a table key; `None` for a key that it cannot
/// keep. Text stays, a boolean becomes `true` or `false`, an integer of 64 signed bits
/// its decimal text.
pub open spec fn key_text(key: Doc) -> Option<Seq<char>> {
    match key {
        Doc::Text(text) => Some(text),
        Doc::Bool(b) => Some(
            if b {
                "true"@
            } else {
                "false"@
            },
        ),
        Doc::Int(i) => if i64::MIN <= i <= i64::MAX {
            Some(integer_text(i))
        } else {
            None
        },
        _ => None,
    }
}

/// The least index at or after `from` whose entry has the key `key`, or the length of
/// `entries` where there is none.
pub open spec fn position(entries: Seq<(Doc, Doc)>, key: Doc, from: int) -> int
    decreases entries.len() - from,
{
    if from < 0 || from >= entries.len() {
        entries.len() as int
    } else if entries[from].0 == key {
        from
    } else {
        position(entries, key, from + 1)
    }
}

/// `entries` after `key` was written with `value`: the entry that had the key keeps its
/// place and takes the new value; a new key goes to the end.
pub open spec fn upsert(entries: Seq<(Doc, Doc)>, key: Doc, value: Doc) -> Seq<(Doc, Doc)> {
    let at = position(entries, key, 0);
    if at < entries.len() {
        entries.update(at, (key, value))
    } else {
        entries.push((key, value))
    }
}

/// The `Tree` that a parsed document becomes, as its view, or the `Deserialization` error
/// that says why it becomes none.
///
/// - An integer outside the 64-bit signed range is an error.
/// - A float keeps its bit pattern, but for a NaN, which becomes the one NaN that the
///   carrier of floats keeps.
/// - A date becomes the text that the format writes for it.
/// - A tagged node is an error.
/// - A table key is kept as text, see [`key_text`]; one that has no text is an error.
/// - Where a table writes one key twice, the first place and the last value stay.
/// - In a list or table the first error, in document order, is the one reported.
pub open spec fn normalize(doc: Doc) -> Result<Doc, ErrorView>
    decreases doc, 0nat,
{
    match doc {
        Doc::Null => Ok(doc),
        Doc::Bool(_) => Ok(doc),
        Doc::Int(i) => if i64::MIN <= i <= i64::MAX {
            Ok(doc)
        } else {
            Err(ErrorView::Deserialization(integer_out_of_range()))
        },
        Doc::Float(bits) => Ok(Doc::Float(carried(bits))),
        Doc::Text(_) => Ok(doc),
        Doc::Datetime(text) => Ok(Doc::Text(text)),
        Doc::Tagged => Err(ErrorView::Deserialization(tag_not_supported())),
        Doc::List(items) => match normalize_items(items, items.len()) {
            Ok(done) => Ok(Doc::List(done)),
            Err(error) => Err(error),
        },
        Doc::Table(entries) => match normalize_entries(entries, entries.len()) {
            Ok(done) => Ok(Doc::Table(done)),
            Err(error) => Err(error),
        },
    }
}

/// [`normalize`] on the first `n` items of a list.
pub open spec fn normalize_items(items: Seq<Doc>, n: nat) -> Result<Seq<Doc>, ErrorView>
    decreases items, n,
{
    if n == 0 || n > items.len() {
        Ok(Seq::empty())
    } else {
        match normalize_items(items, (n - 1) as nat) {
            Err(error) => Err(error),
            Ok(done) => match normalize(items[n - 1]) {
                Err(error) => Err(error),
                Ok(item) => Ok(done.push(item)),
            },
        }
    }
}

/// [`normalize`] on the first `n` entries of a table.
pub open spec fn normalize_entries(entries: Seq<(Doc, Doc)>, n: nat) -> Result<
    Seq<(Doc, Doc)>,
    ErrorView,
>
    decreases entries, n,
{
    if n == 0 || n > entries.len() {
        Ok(Seq::empty())
    } else {
        match normalize_entries(entries, (n - 1) as nat) {
            Err(error) => Err(error),
            Ok(done) => match key_text(entries[n - 1].0) {
                None => Err(ErrorView::Deserialization(key_not_text())),
                Some(key) => match normalize(entries[n - 1].1) {
                    Err(error) => Err(error),
                    Ok(value) => Ok(upsert(done, Doc::Text(key), value)),
                },
            },
        }
    }
}

/// Where [`position`] lies, and that nothing before it has the key.
pub proof fn lemma_position(entries: Seq<(Doc, Doc)>, key: Doc, from: int)
    requires
        0 <= from <= entries.len(),
    ensures
        from <= position(entries, key, from) <= entries.len(),
        position(entries, key, from) < entries.len() ==> entries[position(
            entries,
            key,
            from,
        )].0 == key,
        forall|j: int|
            from <= j < position(entries, key, from) ==> (#[trigger] entries[j]).0 != key,
    decreases entries.len() - from,
{
    if from < entries.len() && entries[from].0 != key {
        lemma_position(entries, key, from + 1);
    }
}

/// A key that no entry has is not found.
pub proof fn lemma_position_of_new_key(entries: Seq<(Doc, Doc)>, key: Doc)
    requires
        forall|i: int| 0 <= i < entries.len() ==> (#[trigger] entries[i]).0 != key,
    ensures
        position(entries, key, 0) == entries.len(),
{
    lemma_position(entries, key, 0);
}

/// Where [`normalize`] fails, the error is a `Deserialization` error.
pub proof fn lemma_normalize_error_kind(doc: Doc)
    ensures
        normalize(doc) matches Err(error) ==> error is Deserialization,
    decreases doc, 0nat,
{
    match doc {
        Doc::List(items) => lemma_normalize_items_error_kind(items, items.len()),
        Doc::Table(entries) => lemma_normalize_entries_error_kind(entries, entries.len()),
        _ => {},
    }
}

/// Where [`normalize_items`] fails, the error is a `Deserialization` error.
pub proof fn lemma_normalize_items_error_kind(items: Seq<Doc>, n: nat)
    ensures
        normalize_items(items, n) matches Err(error) ==> error is Deserialization,
    decreases items, n,
{
    if !(n == 0 || n > items.len()) {
        lemma_normalize_items_error_kind(items, (n - 1) as nat);
        lemma_normalize_error_kind(items[n - 1]);
    }
}

/// Where [`normalize_entries`] fails, the error is a `Deserialization` error.
pub proof fn lemma_normalize_entries_error_kind(entries: Seq<(Doc, Doc)>, n: nat)
    ensures
        normalize_entries(entries, n) matches Err(error) ==> error is Deserialization,
    decreases entries, n,
{
    if !(n == 0 || n > entries.len()) {
        lemma_normalize_entries_error_kind(entries, (n - 1) as nat);
        lemma_normalize_error_kind(entries[n - 1].1);
    }
}

/// Once the first `n` items gave an error, every longer run of items gives the same.
pub proof fn lemma_items_error_stays(items: Seq<Doc>, n: nat, m: nat)
    requires
        n <= m <= items.len(),
        normalize_items(items, n) is Err,
    ensures
        normalize_items(items, m) == normalize_items(items, n),
    decreases m,
{
    if n < m {
        lemma_items_error_stays(items, n, (m - 1) as nat);
    }
}

/// Once the first `n` entries gave an error, every longer run of entries gives the same.
pub proof fn lemma_entries_error_stays(entries: Seq<(Doc, Doc)>, n: nat, m: nat)
    requires
        n <= m <= entries.len(),
        normalize_entries(entries, n) is Err,
    ensures
        normalize_entries(entries, m) == normalize_entries(entries, n),
    decreases m,
{
    if n < m {
        lemma_entries_error_stays(entries, n, (m - 1) as nat);
    }
}

/// Writing a text key with a well-formed value into well-formed entries leaves them
/// well-formed.
pub proof fn lemma_upsert_well_formed(entries: Seq<(Doc, Doc)>, key: Seq<char>, value: Doc)
    requires
        well_formed(Doc::Table(entries)),
        well_formed(value),
    ensures
        well_formed(Doc::Table(upsert(entries, Doc::Text(key), value))),
{
    let wanted = Doc::Text(key);
    let after = upsert(entries, wanted, value);
    lemma_position(entries, wanted, 0);
    let at = position(entries, wanted, 0);
    assert forall|i: int| 0 <= i < after.len() implies (#[trigger] after[i]).0 is Text
        && well_formed(after[i].1) by {
        if i < entries.len() && i != at {
            assert(after[i] == entries[i]);
        }
    }
    assert forall|i: int, j: int| 0 <= i < j < after.len() implies (#[trigger] after[i]).0 != (
    #[trigger] after[j]).0 by {
        if at < entries.len() {
            if i != at && j != at {
                assert(after[i] == entries[i] && after[j] == entries[j]);
            } else if i == at {
                assert(after[j] == entries[j]);
                assert(entries[i].0 != entries[j].0);
            } else {
                assert(after[i] == entries[i]);
                assert(entries[i].0 != entries[j].0);
            }
        } else {
            if j < entries.len() {
                assert(after[i] == entries[i] && after[j] == entries[j]);
            } else {
                assert(after[i] == entries[i]);
            }
        }
    }
}

/// What [`normalize`] gives is well-formed.
pub proof fn lemma_normalize_well_formed(doc: Doc)
    ensures
        normalize(doc) matches Ok(tree) ==> well_formed(tree),
    decreases doc, 0nat,
{
    match doc {
        Doc::List(items) => lemma_normalize_items_well_formed(items, items.len()),
        Doc::Table(entries) => lemma_normalize_entries_well_formed(entries, entries.len()),
        _ => {},
    }
}

/// What [`normalize_items`] gives is a list of well-formed documents.
pub proof fn lemma_normalize_items_well_formed(items: Seq<Doc>, n: nat)
    ensures
        normalize_items(items, n) matches Ok(done) ==> well_formed(Doc::List(done)),
    decreases items, n,
{
    if !(n == 0 || n > items.len()) {
        lemma_normalize_items_well_formed(items, (n - 1) as nat);
        lemma_normalize_well_formed(items[n - 1]);
        match (normalize_items(items, (n - 1) as nat), normalize(items[n - 1])) {
            (Ok(done), Ok(item)) => {
                let after = done.push(item);
                assert(Doc::List(done)->List_0 == done);
                assert forall|i: int| 0 <= i < after.len() implies well_formed(
                    #[trigger] after[i],
                ) by {
                    if i < done.len() {
                        assert(after[i] == done[i]);
                    }
                }
            },
            _ => {},
        }
    }
}

/// What [`normalize_entries`] gives is the entries of a well-formed table.
pub proof fn lemma_normalize_entries_well_formed(entries: Seq<(Doc, Doc)>, n: nat)
    ensures
        normalize_entries(entries, n) matches Ok(done) ==> well_formed(Doc::Table(done)),
    decreases entries, n,
{
    if !(n == 0 || n > entries.len()) {
        lemma_normalize_entries_well_formed(entries, (n - 1) as nat);
        lemma_normalize_well_formed(entries[n - 1].1);
        match (
            normalize_entries(entries, (n - 1) as nat),
            key_text(entries[n - 1].0),
            normalize(entries[n - 1].1),
        ) {
            (Ok(done), Some(key), Ok(value)) => lemma_upsert_well_formed(done, key, value),
            _ => {},
        }
    }
}

/// [`normalize_items`] leaves the first `n` items of a well-formed list as they are.
pub proof fn lemma_normalize_items_keeps(items: Seq<Doc>, n: nat)
    requires
        n <= items.len(),
        well_formed(Doc::List(items)),
        floats_kept(Doc::List(items)),
    ensures
        normalize_items(items, n) == Ok::<Seq<Doc>, ErrorView>(items.take(n as int)),
    decreases items, n,
{
    assert(Doc::List(items)->List_0 == items);
    if n == 0 {
        assert(items.take(0) =~= Seq::empty());
    } else {
        lemma_normalize_items_keeps(items, (n - 1) as nat);
        lemma_normalize_keeps(items[n - 1]);
        assert(items.take(n as int) =~= items.take(n - 1).push(items[n - 1]));
    }
}

/// [`normalize_entries`] leaves the first `n` entries of a well-formed table as they are.
pub proof fn lemma_normalize_entries_keeps(entries: Seq<(Doc, Doc)>, n: nat)
    requires
        n <= entries.len(),
        well_formed(Doc::Table(entries)),
        floats_kept(Doc::Table(entries)),
    ensures
        normalize_entries(entries, n) == Ok::<Seq<(Doc, Doc)>, ErrorView>(entries.take(n as int)),
    decreases entries, n,
{
    assert(Doc::Table(entries)->Table_0 == entries);
    if n == 0 {
        assert(entries.take(0) =~= Seq::empty());
    } else {
        lemma_normalize_entries_keeps(entries, (n - 1) as nat);
        let entry = entries[n - 1];
        lemma_normalize_keeps(entry.1);
        let before = entries.take(n - 1);
        assert forall|i: int| 0 <= i < before.len() implies (#[trigger] before[i]).0
            != entry.0 by {
            assert(before[i] == entries[i]);
        }
        lemma_position_of_new_key(before, entry.0);
        assert(entry.0 == Doc::Text(entry.0->Text_0));
        assert(entries.take(n as int) =~= before.push(entry));
    }
}

/// [`normalize`] leaves a well-formed document as it is, where the carrier of floats
/// leaves its floats as they are.
pub proof fn lemma_normalize_keeps(doc: Doc)
    requires
        well_formed(doc),
        floats_kept(doc),
    ensures
        normalize(doc) == Ok::<Doc, ErrorView>(doc),
    decreases doc, 0nat,
{
    match doc {
        Doc::List(items) => {
            lemma_normalize_items_keeps(items, items.len());
            assert(items.take(items.len() as int) =~= items);
        },
        Doc::Table(entries) => {
            lemma_normalize_entries_keeps(entries, entries.len());
            assert(entries.take(entries.len() as int) =~= entries);
        },
        _ => {},
    }
}

} // verus!
