//! Character and string primitives shared by the rest of the crate:
//! whitespace and lowercase, the words of a line, trimming, and numbers
//! in base ten.

use vstd::prelude::*;

verus! {

/// Whether a character has the Unicode `White_Space` property.
pub uninterp spec fn is_blank(c: char) -> bool;

/// The lowercase form of a text, as the Unicode case mapping defines it.
pub uninterp spec fn lowercase(s: Seq<char>) -> Seq<char>;

/// `char::is_whitespace` decides the `White_Space` property; the contract
/// gives that decision the name [`is_blank`] and claims nothing else.
pub assume_specification[ char::is_whitespace ](c: char) -> (b: bool)
    ensures
        b == is_blank(c),
;

/// `str::to_lowercase` returns the lowercase equivalent of the text as a
/// new `String`; the contract names that text [`lowercase`] and claims
/// nothing else.
pub assume_specification[ str::to_lowercase ](s: &str) -> (r: String)
    ensures
        r@ == lowercase(s@),
;

/// `String::push` appends one character to the end of the string.
pub assume_specification[ String::push ](s: &mut String, c: char)
    ensures
        final(s)@ == old(s)@.push(c),
;

/// A word: at least one character, none of them whitespace.
pub open spec fn is_word(w: Seq<char>) -> bool {
    w.len() > 0 && forall|i: int| 0 <= i < w.len() ==> !is_blank(#[trigger] w[i])
}

/// A gap: at least one character, all of them whitespace.
pub open spec fn is_gap(g: Seq<char>) -> bool {
    g.len() > 0 && forall|i: int| 0 <= i < g.len() ==> is_blank(#[trigger] g[i])
}

/// A margin: whitespace and nothing else, or nothing at all.
pub open spec fn is_margin(g: Seq<char>) -> bool {
    forall|i: int| 0 <= i < g.len() ==> is_blank(#[trigger] g[i])
}

/// Length of the longest prefix of `s` that holds no whitespace.
pub open spec fn word_length(s: Seq<char>) -> nat
    decreases s.len(),
{
    if s.len() == 0 || is_blank(s[0]) {
        0
    } else {
        1 + word_length(s.drop_first())
    }
}

/// The words of `s`: its maximal runs of characters that are not
/// whitespace, from left to right.
pub open spec fn words(s: Seq<char>) -> Seq<Seq<char>>
    decreases s.len(),
    via words_terminates
{
    if s.len() == 0 {
        Seq::empty()
    } else if is_blank(s[0]) {
        words(s.drop_first())
    } else {
        seq![s.take(word_length(s) as int)] + words(s.skip(word_length(s) as int))
    }
}

#[via_fn]
proof fn words_terminates(s: Seq<char>) {
    lemma_word_length_bounds(s);
}

/// `s` without its leading whitespace.
pub open spec fn trim_start(s: Seq<char>) -> Seq<char>
    decreases s.len(),
{
    if s.len() > 0 && is_blank(s[0]) {
        trim_start(s.drop_first())
    } else {
        s
    }
}

/// `s` without its trailing whitespace.
pub open spec fn trim_end(s: Seq<char>) -> Seq<char>
    decreases s.len(),
{
    if s.len() > 0 && is_blank(s.last()) {
        trim_end(s.drop_last())
    } else {
        s
    }
}

/// `s` without its leading and trailing whitespace.
pub open spec fn trimmed(s: Seq<char>) -> Seq<char> {
    trim_end(trim_start(s))
}

/// The texts that a vector of strings holds, in order.
pub open spec fn texts(v: Seq<String>) -> Seq<Seq<char>> {
    Seq::new(v.len(), |i: int| v[i]@)
}

/// The word that starts `s` is no longer than `s`, and not empty where `s`
/// starts with a character that is not whitespace.
pub proof fn lemma_word_length_bounds(s: Seq<char>)
    ensures
        word_length(s) <= s.len(),
        s.len() > 0 && !is_blank(s[0]) ==> word_length(s) >= 1,
    decreases s.len(),
{
    if s.len() > 0 && !is_blank(s[0]) {
        lemma_word_length_bounds(s.drop_first());
    }
}

/// Where the first `k` characters of `s` are not whitespace and the text
/// ends there or goes on with whitespace, the word that starts `s` has
/// length `k`.
pub proof fn lemma_word_length_is(s: Seq<char>, k: int)
    requires
        0 <= k <= s.len(),
        forall|i: int| 0 <= i < k ==> !is_blank(#[trigger] s[i]),
        k == s.len() || is_blank(s[k]),
    ensures
        word_length(s) == k,
    decreases k,
{
    if k > 0 {
        let t = s.drop_first();
        assert forall|i: int| 0 <= i < k - 1 implies !is_blank(#[trigger] t[i]) by {
            assert(t[i] == s[i + 1]);
        }
        lemma_word_length_is(t, k - 1);
    }
}

/// Every word of a text is a word: not empty and free of whitespace.
pub proof fn lemma_words_are_words(s: Seq<char>)
    ensures
        forall|i: int| 0 <= i < words(s).len() ==> is_word(#[trigger] words(s)[i]),
    decreases s.len(),
{
    if s.len() == 0 {
        assert(words(s).len() == 0);
    } else if is_blank(s[0]) {
        lemma_words_are_words(s.drop_first());
        assert(words(s) == words(s.drop_first()));
    } else {
        let n = word_length(s) as int;
        lemma_word_length_bounds(s);
        lemma_word_prefix_clean(s);
        lemma_words_are_words(s.skip(n));
        let head = s.take(n);
        let rest = words(s.skip(n));
        assert(is_word(head));
        assert(words(s) == seq![head] + rest);
        assert forall|i: int| 0 <= i < words(s).len() implies is_word(#[trigger] words(s)[i]) by {
            if i > 0 {
                assert(words(s)[i] == rest[i - 1]);
            } else {
                assert(words(s)[i] == head);
            }
        }
    }
}

/// The word that starts `s` holds no whitespace, and is followed by
/// whitespace or by the end of the text.
pub proof fn lemma_word_prefix_clean(s: Seq<char>)
    ensures
        forall|i: int| 0 <= i < word_length(s) ==> !is_blank(#[trigger] s[i]),
        word_length(s) < s.len() ==> is_blank(s[word_length(s) as int]),
    decreases s.len(),
{
    if s.len() > 0 && !is_blank(s[0]) {
        let t = s.drop_first();
        lemma_word_prefix_clean(t);
        lemma_word_length_bounds(t);
        assert forall|i: int| 0 <= i < word_length(s) implies !is_blank(#[trigger] s[i]) by {
            if i > 0 {
                assert(s[i] == t[i - 1]);
            }
        }
        if word_length(s) < s.len() {
            assert(s[word_length(s) as int] == t[word_length(t) as int]);
        }
    }
}

/// Whitespace in front of a text does not change its words.
pub proof fn lemma_words_skip_gap(g: Seq<char>, s: Seq<char>)
    requires
        forall|i: int| 0 <= i < g.len() ==> is_blank(#[trigger] g[i]),
    ensures
        words(g + s) == words(s),
    decreases g.len(),
{
    if g.len() == 0 {
        assert(g + s =~= s);
    } else {
        let t = g.drop_first();
        assert forall|i: int| 0 <= i < t.len() implies is_blank(#[trigger] t[i]) by {
            assert(t[i] == g[i + 1]);
        }
        assert((g + s)[0] == g[0]);
        assert((g + s).drop_first() =~= t + s);
        lemma_words_skip_gap(t, s);
    }
}

/// A word, then a gap, then the rest: the words are that word and the
/// words of the rest.
pub proof fn lemma_words_of_word_then_gap(w: Seq<char>, g: Seq<char>, s: Seq<char>)
    requires
        is_word(w),
        is_gap(g),
    ensures
        words(w + g + s) == seq![w] + words(s),
{
    let all = w + g + s;
    let n = w.len() as int;
    assert forall|i: int| 0 <= i < n implies !is_blank(#[trigger] all[i]) by {
        assert(all[i] == w[i]);
    }
    assert(all[n] == g[0]);
    lemma_word_length_is(all, n);
    assert(all.take(n) =~= w);
    assert(all.skip(n) =~= g + s);
    lemma_words_skip_gap(g, s);
}

/// A text that is one word, with or without whitespace behind it, has
/// that word as its only word.
pub proof fn lemma_words_of_word(w: Seq<char>, margin: Seq<char>)
    requires
        is_word(w),
        is_margin(margin),
    ensures
        words(w + margin) == seq![w],
{
    let nothing = Seq::<char>::empty();
    assert(words(nothing) =~= Seq::<Seq<char>>::empty());
    if margin.len() == 0 {
        let n = w.len() as int;
        assert(w + margin =~= w);
        lemma_word_length_is(w, n);
        assert(w.take(n) =~= w);
        assert(w.skip(n) =~= nothing);
    } else {
        assert(w + margin =~= w + margin + nothing);
        lemma_words_of_word_then_gap(w, margin, nothing);
    }
}

/// Where the first `k` characters of `s` are whitespace and the text ends
/// there or goes on with another character, trimming the start drops
/// exactly those `k`.
pub proof fn lemma_trim_start_is(s: Seq<char>, k: int)
    requires
        0 <= k <= s.len(),
        forall|i: int| 0 <= i < k ==> is_blank(#[trigger] s[i]),
        k == s.len() || !is_blank(s[k]),
    ensures
        trim_start(s) == s.skip(k),
    decreases k,
{
    if k > 0 {
        let t = s.drop_first();
        assert forall|i: int| 0 <= i < k - 1 implies is_blank(#[trigger] t[i]) by {
            assert(t[i] == s[i + 1]);
        }
        lemma_trim_start_is(t, k - 1);
        assert(t.skip(k - 1) =~= s.skip(k));
    } else {
        assert(s.skip(0) =~= s);
    }
}

/// Where the characters of `s` from `k` on are whitespace and the one
/// before them, if there is one, is not, trimming the end keeps exactly
/// the first `k`.
pub proof fn lemma_trim_end_is(s: Seq<char>, k: int)
    requires
        0 <= k <= s.len(),
        forall|i: int| k <= i < s.len() ==> is_blank(#[trigger] s[i]),
        k == 0 || !is_blank(s[k - 1]),
    ensures
        trim_end(s) == s.take(k),
    decreases s.len() - k,
{
    if k < s.len() {
        let t = s.drop_last();
        lemma_trim_end_is(t, k);
        assert(t.take(k) =~= s.take(k));
    } else {
        assert(s.take(k) =~= s);
    }
}

/// Whether `c` is one of the digits `0` to `9`.
pub open spec fn is_digit(c: char) -> bool {
    '0' <= c <= '9'
}

/// The number that the digit `c` stands for.
pub open spec fn digit_value(c: char) -> nat {
    (c as nat - '0' as nat) as nat
}

/// The digit that stands for `d`, a number below ten.
pub open spec fn digit_char(d: nat) -> char {
    (('0' as nat + d) as u8) as char
}

/// Whether `s` holds digits and nothing else.
pub open spec fn all_digits(s: Seq<char>) -> bool {
    forall|i: int| 0 <= i < s.len() ==> is_digit(#[trigger] s[i])
}

/// The number that a run of digits writes in base ten.
pub open spec fn digits_value(s: Seq<char>) -> nat
    decreases s.len(),
{
    if s.len() == 0 {
        0
    } else {
        digits_value(s.drop_last()) * 10 + digit_value(s.last())
    }
}

/// How `n` is written in base ten, without leading zeros.
pub open spec fn decimal_text(n: nat) -> Seq<char>
    decreases n,
{
    if n < 10 {
        seq![digit_char(n)]
    } else {
        decimal_text(n / 10).push(digit_char(n % 10))
    }
}

/// A run of digits with one more digit behind it is worth ten times the
/// run plus the digit, so a longer run is never worth less.
pub proof fn lemma_digits_value_grows(s: Seq<char>)
    requires
        s.len() > 0,
        is_digit(s.last()),
    ensures
        digits_value(s) == digits_value(s.drop_last()) * 10 + digit_value(s.last()),
        digit_value(s.last()) <= 9,
        digits_value(s) >= digits_value(s.drop_last()),
{
}

/// A number below ten and its digit stand for each other.
pub proof fn lemma_digit_char(d: nat)
    requires
        d < 10,
    ensures
        is_digit(digit_char(d)),
        digit_value(digit_char(d)) == d,
{
}

/// Writing a number and reading what was written gives the number back:
/// the text holds digits only, at least one, and is worth `n`.
pub proof fn law_decimal_round_trip(n: nat)
    ensures
        decimal_text(n).len() > 0,
        all_digits(decimal_text(n)),
        digits_value(decimal_text(n)) == n,
    decreases n,
{
    if n < 10 {
        lemma_digit_char(n);
        let s = decimal_text(n);
        assert(s.drop_last() =~= Seq::<char>::empty());
        assert(digits_value(s.drop_last()) == 0);
    } else {
        law_decimal_round_trip(n / 10);
        lemma_digit_char(n % 10);
        let front = decimal_text(n / 10);
        let s = decimal_text(n);
        assert(s.drop_last() =~= front);
        assert(s.last() == digit_char(n % 10));
        assert forall|i: int| 0 <= i < s.len() implies is_digit(#[trigger] s[i]) by {
            if i < front.len() {
                assert(s[i] == front[i]);
            }
        }
    }
}

/// The characters of a text, in order.
pub fn characters(text: &str) -> (out: Vec<char>)
    ensures
        out@ == text@,
{
    let mut out: Vec<char> = Vec::new();
    for c in it: text.chars()
        invariant
            it.seq() == text@,
            out@ == it.seq().take(it.index() as int),
    {
        out.push(c);
    }
    out
}

/// The string that holds the characters of `chars` from `from` up to but
/// without `to`.
pub fn string_of(chars: &Vec<char>, from: usize, to: usize) -> (out: String)
    requires
        from <= to <= chars.len(),
    ensures
        out@ == chars@.subrange(from as int, to as int),
{
    let mut out = String::new();
    let mut i: usize = from;
    while i < to
        invariant
            from <= i <= to <= chars.len(),
            out@ == chars@.subrange(from as int, i as int),
        decreases to - i,
    {
        out.push(chars[i]);
        i += 1;
    }
    out
}

/// Splits a text into its words.
pub fn split_words(text: &str) -> (out: Vec<String>)
    ensures
        texts(out@) == words(text@),
{
    let chars = characters(text);
    let n = chars.len();
    let mut out: Vec<String> = Vec::new();
    let mut i: usize = 0;
    proof {
        assert(chars@.skip(0) =~= chars@);
        assert(texts(out@) =~= Seq::<Seq<char>>::empty());
    }
    while i < n
        invariant
            n == chars.len(),
            chars@ == text@,
            i <= n,
            words(text@) == texts(out@) + words(chars@.skip(i as int)),
        decreases n - i,
    {
        let ghost rest = chars@.skip(i as int);
        if chars[i].is_whitespace() {
            proof {
                assert(rest[0] == chars@[i as int]);
                assert(rest.drop_first() =~= chars@.skip(i + 1));
            }
            i += 1;
        } else {
            let start = i;
            while i < n && !chars[i].is_whitespace()
                invariant
                    n == chars.len(),
                    start <= i <= n,
                    forall|j: int| start <= j < i ==> !is_blank(#[trigger] chars@[j]),
                decreases n - i,
            {
                i += 1;
            }
            let word = string_of(&chars, start, i);
            proof {
                let k = i - start;
                assert forall|j: int| 0 <= j < k implies !is_blank(#[trigger] rest[j]) by {
                    assert(rest[j] == chars@[start + j]);
                }
                if k < rest.len() {
                    assert(rest[k] == chars@[i as int]);
                }
                lemma_word_length_is(rest, k);
                assert(rest.take(k) =~= chars@.subrange(start as int, i as int));
                assert(rest.skip(k) =~= chars@.skip(i as int));
                assert(texts(out@.push(word)) =~= texts(out@) + seq![word@]);
            }
            out.push(word);
        }
    }
    proof {
        assert(chars@.skip(n as int) =~= Seq::<char>::empty());
    }
    out
}

/// A copy of the text without its leading and trailing whitespace.
pub fn trim(text: &str) -> (out: String)
    ensures
        out@ == trimmed(text@),
{
    let chars = characters(text);
    let n = chars.len();
    let mut start: usize = 0;
    while start < n && chars[start].is_whitespace()
        invariant
            n == chars.len(),
            start <= n,
            forall|j: int| 0 <= j < start ==> is_blank(#[trigger] chars@[j]),
        decreases n - start,
    {
        start += 1;
    }
    let mut end: usize = n;
    while end > start && chars[end - 1].is_whitespace()
        invariant
            n == chars.len(),
            start <= end <= n,
            forall|j: int| end <= j < n ==> is_blank(#[trigger] chars@[j]),
        decreases end,
    {
        end -= 1;
    }
    proof {
        let s = chars@;
        lemma_trim_start_is(s, start as int);
        let t = s.skip(start as int);
        let k = end - start;
        assert forall|j: int| k <= j < t.len() implies is_blank(#[trigger] t[j]) by {
            assert(t[j] == s[start + j]);
        }
        if k > 0 {
            assert(t[k - 1] == s[end - 1]);
        }
        lemma_trim_end_is(t, k);
        assert(t.take(k) =~= s.subrange(start as int, end as int));
    }
    string_of(&chars, start, end)
}

/// Writes a number in base ten.
pub fn decimal(n: usize) -> (out: String)
    ensures
        out@ == decimal_text(n as nat),
    decreases n,
{
    let digit: u8 = (n % 10) as u8;
    let c: char = (48u8 + digit) as char;
    if n < 10 {
        let mut out = String::new();
        out.push(c);
        proof {
            assert(out@ =~= seq![digit_char(n as nat)]);
        }
        out
    } else {
        let mut out = decimal(n / 10);
        out.push(c);
        out
    }
}

} // verus!
