//! The first and second word of a text, cut at spaces.
//!
//! These functions look at the bytes of the text and know one separator
//! only, the space. A text is UTF-8, in which the byte of the space stands
//! for nothing but a space, so a cut at a space never splits a character.

use vstd::prelude::*;
use vstd::utf8::{encode_utf8, is_char_boundary, valid_utf8};
use vstd::utf8::{encode_utf8_valid_utf8, is_char_boundary_iff_not_is_continuation_byte};
use vstd::utf8::{is_char_boundary_start_end_of_seq, length_of_first_scalar, pop_first_scalar};
use vstd::utf8::valid_utf8_split;

verus! {

/// The byte of the space.
pub const SPACE: u8 = 32;

/// The index of the first space at or behind `from`, or the number of
/// bytes where no space is left.
pub open spec fn next_space(bytes: Seq<u8>, from: int) -> int
    decreases bytes.len() - from,
{
    if from >= bytes.len() {
        bytes.len() as int
    } else if bytes[from] == SPACE {
        from
    } else {
        next_space(bytes, from + 1)
    }
}

/// Where the first word ends when the space behind it is counted in: one
/// past the first space, or the end of the text where it has no space.
pub open spec fn first_word_end(bytes: Seq<u8>) -> int {
    if next_space(bytes, 0) < bytes.len() {
        next_space(bytes, 0) + 1
    } else {
        bytes.len() as int
    }
}

/// Where the second word starts: behind the first space, or behind the
/// first byte where the text has no space.
pub open spec fn second_word_start(bytes: Seq<u8>) -> int {
    if next_space(bytes, 0) < bytes.len() {
        next_space(bytes, 0) + 1
    } else {
        1
    }
}

/// Where the second word ends: at the second space, or at the end of the
/// text where it has no second space.
pub open spec fn second_word_end(bytes: Seq<u8>) -> int {
    next_space(bytes, second_word_start(bytes))
}

/// Whether the second word of the text can be cut out: a text without a
/// space must start with a character of one byte.
pub open spec fn has_second_word(bytes: Seq<u8>) -> bool {
    next_space(bytes, 0) == bytes.len() ==> bytes.len() >= 1 && is_char_boundary(bytes, 1)
}

/// `index` is where the first space at or behind `from` stands: no space
/// comes before it, and it holds a space unless it is the end.
pub proof fn lemma_next_space(bytes: Seq<u8>, from: int)
    requires
        0 <= from <= bytes.len(),
    ensures
        from <= next_space(bytes, from) <= bytes.len(),
        forall|j: int| from <= j < next_space(bytes, from) ==> bytes[j] != SPACE,
        next_space(bytes, from) < bytes.len() ==> bytes[next_space(bytes, from)] == SPACE,
    decreases bytes.len() - from,
{
    if from < bytes.len() && bytes[from] != SPACE {
        lemma_next_space(bytes, from + 1);
    }
}

/// Where no space stands from `from` up to `index`, and `index` holds a
/// space or is the end, `index` is the next space.
pub proof fn lemma_next_space_is(bytes: Seq<u8>, from: int, index: int)
    requires
        0 <= from <= index <= bytes.len(),
        forall|j: int| from <= j < index ==> bytes[j] != SPACE,
        index < bytes.len() ==> bytes[index] == SPACE,
    ensures
        next_space(bytes, from) == index,
    decreases index - from,
{
    if from < index {
        lemma_next_space_is(bytes, from + 1, index);
    }
}

/// In UTF-8 a byte below 128 is a character of its own: a character
/// starts at it and another one, or the end, follows it.
pub proof fn lemma_boundaries_at_ascii(bytes: Seq<u8>, index: int)
    requires
        valid_utf8(bytes),
        0 <= index < bytes.len(),
        bytes[index] < 128,
    ensures
        is_char_boundary(bytes, index),
        is_char_boundary(bytes, index + 1),
{
    is_char_boundary_iff_not_is_continuation_byte(bytes, index);
    if index + 1 == bytes.len() {
        is_char_boundary_start_end_of_seq(bytes);
    } else {
        let rest = bytes.subrange(index, bytes.len() as int);
        valid_utf8_split(bytes, index);
        assert(rest[0] == bytes[index]);
        assert(length_of_first_scalar(rest) == 1);
        assert(valid_utf8(pop_first_scalar(rest)));
        assert(is_char_boundary(pop_first_scalar(rest), 0));
        assert(is_char_boundary(rest, 1));
        is_char_boundary_iff_not_is_continuation_byte(rest, 1);
        assert(rest[1] == bytes[index + 1]);
        is_char_boundary_iff_not_is_continuation_byte(bytes, index + 1);
    }
}

/// A place where a character starts in a text is also one in the part of
/// the text that ends at a later such place.
pub proof fn lemma_boundary_in_prefix(bytes: Seq<u8>, index: int, end: int)
    requires
        valid_utf8(bytes),
        0 <= index <= end <= bytes.len(),
        is_char_boundary(bytes, index),
        is_char_boundary(bytes, end),
    ensures
        valid_utf8(bytes.subrange(0, end)),
        is_char_boundary(bytes.subrange(0, end), index),
{
    let front = bytes.subrange(0, end);
    valid_utf8_split(bytes, end);
    if index == end {
        is_char_boundary_start_end_of_seq(front);
    } else {
        is_char_boundary_iff_not_is_continuation_byte(bytes, index);
        assert(front[index] == bytes[index]);
        is_char_boundary_iff_not_is_continuation_byte(front, index);
    }
}

/// The index of the first space among the bytes of `s`, or the number of
/// bytes where `s` has no space.
pub fn find_first_words_index(s: &String) -> (index: usize)
    ensures
        index == next_space(encode_utf8(s@), 0),
{
    space_from(s.as_str(), 0)
}

/// The index of the first space at or behind `from` among the bytes of
/// `s`, or the number of bytes where no space is left.
pub fn space_from(s: &str, from: usize) -> (index: usize)
    requires
        from <= encode_utf8(s@).len(),
    ensures
        index == next_space(encode_utf8(s@), from as int),
        from <= index <= encode_utf8(s@).len(),
{
    let bytes = s.as_bytes();
    let mut index: usize = from;
    while index < bytes.len()
        invariant
            bytes@ == encode_utf8(s@),
            from <= index <= bytes@.len(),
            forall|j: int| from <= j < index ==> bytes@[j] != SPACE,
        decreases bytes@.len() - index,
    {
        if bytes[index] == SPACE {
            proof {
                lemma_next_space_is(bytes@, from as int, index as int);
            }
            return index;
        }
        index += 1;
    }
    proof {
        lemma_next_space_is(bytes@, from as int, index as int);
    }
    index
}

/// The part of `s` from byte `start` up to but without byte `end`.
pub fn part<'a>(s: &'a str, start: usize, end: usize) -> (piece: &'a str)
    requires
        start <= end <= encode_utf8(s@).len(),
        is_char_boundary(encode_utf8(s@), start as int),
        is_char_boundary(encode_utf8(s@), end as int),
    ensures
        encode_utf8(piece@) == encode_utf8(s@).subrange(start as int, end as int),
{
    proof {
        encode_utf8_valid_utf8(s@);
        lemma_boundary_in_prefix(encode_utf8(s@), start as int, end as int);
    }
    let (front, _) = s.split_at(end);
    let (_, piece) = front.split_at(start);
    proof {
        assert(encode_utf8(s@).subrange(0, end as int).subrange(start as int, end as int)
            =~= encode_utf8(s@).subrange(start as int, end as int));
    }
    piece
}

/// The first word of `s` with the space behind it: the text up to and
/// with its first space, or all of it where it has no space.
pub fn first_word(s: &String) -> (word: &str)
    ensures
        encode_utf8(word@) == encode_utf8(s@).take(first_word_end(encode_utf8(s@))),
{
    let text = s.as_str();
    let space = space_from(text, 0);
    proof {
        let bytes = encode_utf8(s@);
        encode_utf8_valid_utf8(s@);
        is_char_boundary_start_end_of_seq(bytes);
        lemma_next_space(bytes, 0);
        if space < bytes.len() {
            lemma_boundaries_at_ascii(bytes, space as int);
        }
    }
    if space < text.as_bytes().len() {
        part(text, 0, space + 1)
    } else {
        part(text, 0, space)
    }
}

/// The second word of `s`: what stands between its first and its second
/// space, or behind its first space where it has no second one. Of a text
/// without a space, all but the first byte.
pub fn second_word(s: &String) -> (word: &str)
    requires
        has_second_word(encode_utf8(s@)),
    ensures
        encode_utf8(word@) == encode_utf8(s@).subrange(
            second_word_start(encode_utf8(s@)),
            second_word_end(encode_utf8(s@)),
        ),
{
    let text = s.as_str();
    let first = space_from(text, 0);
    proof {
        let bytes = encode_utf8(s@);
        encode_utf8_valid_utf8(s@);
        is_char_boundary_start_end_of_seq(bytes);
        lemma_next_space(bytes, 0);
        if first < bytes.len() {
            lemma_boundaries_at_ascii(bytes, first as int);
        }
    }
    let start: usize = if first < text.as_bytes().len() {
        first + 1
    } else {
        1
    };
    let end = space_from(text, start);
    proof {
        let bytes = encode_utf8(s@);
        lemma_next_space(bytes, start as int);
        if end < bytes.len() {
            lemma_boundaries_at_ascii(bytes, end as int);
        }
    }
    part(text, start, end)
}

/// The first word of `s`: the text before its first space, or all of it
/// where it has no space.
pub fn first_word_improved(s: &str) -> (word: &str)
    ensures
        encode_utf8(word@) == encode_utf8(s@).take(next_space(encode_utf8(s@), 0)),
{
    let space = space_from(s, 0);
    proof {
        let bytes = encode_utf8(s@);
        encode_utf8_valid_utf8(s@);
        is_char_boundary_start_end_of_seq(bytes);
        lemma_next_space(bytes, 0);
        if space < bytes.len() {
            lemma_boundaries_at_ascii(bytes, space as int);
        }
    }
    part(s, 0, space)
}

} // verus!
