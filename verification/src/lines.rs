//! The first line of a text.

use vstd::prelude::*;
use crate::text::characters;

verus! {

/// The index of the first line feed of `text` at or behind `from`, or the
/// length of the text where no line feed is left.
pub open spec fn line_feed_from(text: Seq<char>, from: int) -> int
    decreases text.len() - from,
{
    if from >= text.len() {
        text.len() as int
    } else if text[from] == '\n' {
        from
    } else {
        line_feed_from(text, from + 1)
    }
}

/// The first line of a text, without its line ending: what stands before
/// the first line feed, less a carriage return right before that line
/// feed; or the whole text where it holds no line feed. The empty text has
/// no line.
pub open spec fn first_line(text: Seq<char>) -> Option<Seq<char>> {
    let end = line_feed_from(text, 0);
    if text.len() == 0 {
        None
    } else if 0 < end < text.len() && text[end - 1] == '\r' {
        Some(text.take(end - 1))
    } else {
        Some(text.take(end))
    }
}

/// The last character of the first line, where the text has a line and
/// that line is not empty.
pub open spec fn last_of_first_line(text: Seq<char>) -> Option<char> {
    match first_line(text) {
        Some(line) => if line.len() > 0 {
            Some(line.last())
        } else {
            None
        },
        None => None,
    }
}

/// Where no line feed stands from `from` up to `index`, and `index` holds
/// one or is the end, `index` is the next line feed.
proof fn lemma_line_feed_is(text: Seq<char>, from: int, index: int)
    requires
        0 <= from <= index <= text.len(),
        forall|j: int| from <= j < index ==> text[j] != '\n',
        index < text.len() ==> text[index] == '\n',
    ensures
        line_feed_from(text, from) == index,
    decreases index - from,
{
    if from < index {
        lemma_line_feed_is(text, from + 1, index);
    }
}

/// The last character of the first line of `text`, or `None` where the
/// text is empty or its first line is.
pub fn last_char_of_first_line(text: &str) -> (last: Option<char>)
    ensures
        last == last_of_first_line(text@),
{
    let chars = characters(text);
    let n = chars.len();
    let mut end: usize = 0;
    while end < n && chars[end] != '\n'
        invariant
            n == chars.len(),
            end <= n,
            forall|j: int| 0 <= j < end ==> chars@[j] != '\n',
        decreases n - end,
    {
        end += 1;
    }
    proof {
        lemma_line_feed_is(chars@, 0, end as int);
    }
    if n == 0 {
        return None;
    }
    let stop: usize = if 0 < end && end < n && chars[end - 1] == '\r' {
        end - 1
    } else {
        end
    };
    if stop == 0 {
        None
    } else {
        Some(chars[stop - 1])
    }
}

} // verus!
