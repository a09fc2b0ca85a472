//! Pig Latin.

use vstd::prelude::*;
use crate::text::characters;

verus! {

/// Whether `c` is one of the vowels `a`, `e`, `i`, `o`, `u` in lowercase.
pub open spec fn is_vowel(c: char) -> bool {
    c == 'a' || c == 'e' || c == 'i' || c == 'o' || c == 'u'
}

/// A word in Pig Latin. A word that starts with a vowel gets `-hay` at
/// its end; of any other word the first character moves to the end,
/// between `-` and `ay`. The empty word stays empty.
pub open spec fn pig_latin_text(word: Seq<char>) -> Seq<char> {
    if word.len() == 0 {
        word
    } else if is_vowel(word[0]) {
        word + seq!['-', 'h', 'a', 'y']
    } else {
        word.drop_first() + seq!['-', word[0], 'a', 'y']
    }
}

/// Whether `c` is one of the vowels `a`, `e`, `i`, `o`, `u` in lowercase.
pub fn vowel(c: char) -> (found: bool)
    ensures
        found == is_vowel(c),
{
    c == 'a' || c == 'e' || c == 'i' || c == 'o' || c == 'u'
}

/// Puts a word in Pig Latin.
pub fn pig_latin(word: &str) -> (out: String)
    ensures
        out@ == pig_latin_text(word@),
{
    let chars = characters(word);
    let n = chars.len();
    let mut out = String::new();
    if n == 0 {
        assert(out@ =~= word@);
        return out;
    }
    let first = chars[0];
    let start: usize = if vowel(first) {
        0
    } else {
        1
    };
    let mut i: usize = start;
    while i < n
        invariant
            n == chars.len(),
            start <= i <= n,
            out@ == chars@.subrange(start as int, i as int),
        decreases n - i,
    {
        out.push(chars[i]);
        i += 1;
    }
    proof {
        assert(chars@.subrange(0, n as int) =~= chars@);
        assert(chars@.subrange(1, n as int) =~= chars@.drop_first());
    }
    out.push('-');
    if start == 0 {
        out.push('h');
    } else {
        out.push(first);
    }
    out.push('a');
    out.push('y');
    proof {
        assert(out@ =~= pig_latin_text(word@));
    }
    out
}

} // verus!
