//! The source text of a conversion: given as it is, or put together from lines.

use vstd::prelude::*;

verus! {

/// The lines with `separator` between each two of them, and none at the end.
pub open spec fn joined(lines: Seq<String>, separator: Seq<char>) -> Seq<char>
    decreases lines.len(),
{
    if lines.len() == 0 {
        Seq::empty()
    } else if lines.len() == 1 {
        lines[0]@
    } else {
        joined(lines.drop_last(), separator) + separator + lines.last()@
    }
}

/// Joins lines into one text, with `separator` between each two of them.
pub fn join_lines(lines: &Vec<String>, separator: &str) -> (text: String)
    ensures
        text@ == joined(lines@, separator@),
{
    let mut text = String::new();
    let mut i: usize = 0;
    assert(lines@.take(0) =~= Seq::empty());
    while i < lines.len()
        invariant
            i <= lines.len(),
            text@ == joined(lines@.take(i as int), separator@),
        decreases lines.len() - i,
    {
        if i > 0 {
            text.append(separator);
        }
        text.append(lines[i].as_str());
        assert(lines@.take(i + 1).drop_last() =~= lines@.take(i as int));
        assert(lines@.take(i + 1).last() == lines@[i as int]);
        i += 1;
    }
    assert(lines@.take(i as int) =~= lines@);
    text
}

/// The text to convert: the text that was given, or, where none was given, the lines
/// that were read in its place, joined by `line_ending`.
pub fn extract_input(input: &Option<String>, lines: &Vec<String>, line_ending: &str) -> (text:
    String)
    ensures
        text@ == match input {
            Some(given) => given@,
            None => joined(lines@, line_ending@),
        },
{
    match input {
        Some(given) => given.clone(),
        None => join_lines(lines, line_ending),
    }
}

} // verus!
