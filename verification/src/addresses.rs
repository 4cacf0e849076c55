//! Cutting an address list out of a text: one address per line.
//!
//! Only the line feed separates addresses. Nothing is trimmed and nothing is
//! left out: an empty line is an empty address, and so is what follows a
//! line feed at the very end.

use vstd::prelude::*;
use vstd::std_specs::iter::IteratorSpec;
use vstd::string::StrSliceExecFns;

verus! {

/// The character that separates two addresses.
pub const LINE_FEED: char = '\n';

/// The pieces of `text` between its line feeds, in order. There is always one
/// piece more than there are line feeds: a line feed at the end of a text
/// opens a new, empty line, and any other character at the end belongs to
/// the last line of what stands before it.
pub open spec fn split_lines(text: Seq<char>) -> Seq<Seq<char>>
    decreases text.len(),
{
    if text.len() == 0 {
        seq![Seq::empty()]
    } else {
        let before = split_lines(text.drop_last());
        if text.last() == LINE_FEED {
            before.push(Seq::empty())
        } else {
            before.update(before.len() - 1, before.last().push(text.last()))
        }
    }
}

/// The text that holds `lines` with one line feed between each two of them.
pub open spec fn join_lines(lines: Seq<Seq<char>>) -> Seq<char>
    decreases lines.len(),
{
    if lines.len() == 0 {
        Seq::empty()
    } else if lines.len() == 1 {
        lines[0]
    } else {
        join_lines(lines.drop_last()).push(LINE_FEED) + lines.last()
    }
}

/// Every text has at least one line.
pub proof fn lemma_split_lines_is_not_empty(text: Seq<char>)
    ensures
        split_lines(text).len() >= 1,
    decreases text.len(),
{
    if text.len() > 0 {
        lemma_split_lines_is_not_empty(text.drop_last());
    }
}

/// No line holds a line feed.
pub proof fn lemma_lines_hold_no_line_feed(text: Seq<char>)
    ensures
        forall|i: int|
            0 <= i < split_lines(text).len() ==> !(#[trigger] split_lines(text)[i]).contains(
                LINE_FEED,
            ),
    decreases text.len(),
{
    if text.len() > 0 {
        lemma_lines_hold_no_line_feed(text.drop_last());
        lemma_split_lines_is_not_empty(text.drop_last());
    }
}

/// Putting the lines of a text together again, with a line feed between each
/// two, gives the text: cutting loses no character.
pub proof fn lemma_join_of_split(text: Seq<char>)
    ensures
        join_lines(split_lines(text)) == text,
    decreases text.len(),
{
    if text.len() > 0 {
        let front = text.drop_last();
        let before = split_lines(front);
        lemma_join_of_split(front);
        lemma_split_lines_is_not_empty(front);
        if text.last() == LINE_FEED {
            assert(before.push(Seq::empty()).drop_last() =~= before);
        } else if before.len() > 1 {
            let after = before.update(before.len() - 1, before.last().push(text.last()));
            assert(after.drop_last() =~= before.drop_last());
            assert(front.push(text.last()) =~= text);
        }
    }
}

/// A text that ends in a line that holds no line feed is cut into the lines
/// of what stands before, the last of them made longer by that line.
proof fn lemma_split_after_line(text: Seq<char>, line: Seq<char>)
    requires
        !line.contains(LINE_FEED),
    ensures
        split_lines(text).len() >= 1,
        split_lines(text + line) == split_lines(text).update(
            split_lines(text).len() - 1,
            split_lines(text).last() + line,
        ),
    decreases line.len(),
{
    lemma_split_lines_is_not_empty(text);
    if line.len() > 0 {
        let lines = split_lines(text);
        let front = line.drop_last();
        lemma_split_after_line(text, front);
        assert((text + line).drop_last() =~= text + front);
        assert((lines.last() + front).push(line.last()) =~= lines.last() + line);
    }
}

/// Lines that hold no line feed, at least one of them, are what their joined
/// text is cut into: no other cut of a text gives lines without a line feed
/// that join to it.
pub proof fn lemma_split_of_join(lines: Seq<Seq<char>>)
    requires
        lines.len() >= 1,
        forall|i: int| 0 <= i < lines.len() ==> !(#[trigger] lines[i]).contains(LINE_FEED),
    ensures
        split_lines(join_lines(lines)) == lines,
    decreases lines.len(),
{
    if lines.len() == 1 {
        lemma_split_after_line(Seq::empty(), lines[0]);
    } else {
        let head = join_lines(lines.drop_last()).push(LINE_FEED);
        lemma_split_of_join(lines.drop_last());
        assert(head.drop_last() =~= join_lines(lines.drop_last()));
        lemma_split_after_line(head, lines.last());
    }
}

/// Cuts `contents` into addresses, one per line.
///
/// Nothing is trimmed or filtered, so a line feed at the end of `contents`
/// leaves an empty address as the last one, and an empty `contents` is one
/// empty address.
///
/// Each address is cut out by a walk from the start of `contents`, so the
/// time grows with the number of lines times the length of `contents`.
pub fn split_addresses(contents: &str) -> (addresses: Vec<String>)
    ensures
        addresses.deep_view() == split_lines(contents@),
{
    broadcast use vstd::string::group_string_axioms;

    let total = contents.unicode_len();
    let mut addresses: Vec<String> = Vec::new();
    let mut chars = contents.chars();
    let mut start: usize = 0;
    let mut at: usize = 0;
    assert(contents@.take(0) =~= Seq::<char>::empty());
    while at < total
        invariant
            total == contents@.len(),
            start <= at <= total,
            chars.remaining() == contents@.skip(at as int),
            split_lines(contents@.take(at as int)) == addresses.deep_view().push(
                contents@.subrange(start as int, at as int),
            ),
        decreases total - at,
    {
        let ghost line = contents@.subrange(start as int, at as int);
        let next = chars.next();
        assert(contents@.take(at + 1).drop_last() =~= contents@.take(at as int));
        if let Some(c) = next {
            if c == LINE_FEED {
                addresses.push(contents.substring_char(start, at).to_owned());
                start = at + 1;
                assert(contents@.subrange(at + 1, at + 1) =~= Seq::<char>::empty());
            } else {
                assert(contents@.subrange(start as int, at + 1) =~= line.push(c));
            }
        }
        at += 1;
    }
    assert(contents@.take(at as int) =~= contents@);
    addresses.push(contents.substring_char(start, at).to_owned());
    addresses
}

} // verus!
