//! The command parser: menu choices, add-sentences and department queries.
//!
//! An add-sentence names a person and a department in free text, as in
//! `add Priya to Sales`. The parser reads it from the right: the last
//! word that is neither `add` nor `to` is the department, the one before
//! it the person. Names of several words are therefore not understood;
//! only the last word of each is taken.

use vstd::prelude::*;
use crate::text::{all_digits, characters, digits_value, is_digit, is_gap, is_margin, is_word};
use crate::text::{lemma_digits_value_grows, lemma_words_are_words, lemma_words_of_word};
use crate::text::{lemma_words_of_word_then_gap, lemma_words_skip_gap, lowercase, split_words};
use crate::text::{texts, trim, trimmed, words};

verus! {

/// Why a line of input was turned down.
#[derive(Clone, Copy, Debug, PartialEq, Eq, Structural)]
pub enum InputError {
    /// The menu line is not one of the four options.
    InvalidMenuChoice,
    /// The add-sentence does not name a person and a department.
    MalformedAddCommand,
    /// The department asked for is blank.
    EmptyDepartmentQuery,
    /// The line could not be read.
    InputReadFailure,
}

/// One of the four entries of the menu.
#[derive(Clone, Copy, Debug, PartialEq, Eq, Structural)]
pub enum MenuOption {
    /// Option 1: add a person to a department.
    AddMember,
    /// Option 2: list the people of one department.
    ListDepartment,
    /// Option 3: list every department with its people.
    ListAll,
    /// Option 4: leave.
    Exit,
}

/// What a line of input asks for.
#[derive(Debug, PartialEq, Eq)]
pub enum ParsedCommand {
    AddMember { department: String, name: String },
    ListDepartment { department: String },
    ListAll,
    Exit,
    Invalid { reason: String },
}

/// A [`ParsedCommand`] with its strings as texts.
pub enum CommandView {
    AddMember { department: Seq<char>, name: Seq<char> },
    ListDepartment { department: Seq<char> },
    ListAll,
    Exit,
    Invalid { reason: Seq<char> },
}

impl View for ParsedCommand {
    type V = CommandView;

    open spec fn view(&self) -> CommandView {
        match self {
            ParsedCommand::AddMember { department, name } => CommandView::AddMember {
                department: department@,
                name: name@,
            },
            ParsedCommand::ListDepartment { department } => CommandView::ListDepartment {
                department: department@,
            },
            ParsedCommand::ListAll => CommandView::ListAll,
            ParsedCommand::Exit => CommandView::Exit,
            ParsedCommand::Invalid { reason } => CommandView::Invalid { reason: reason@ },
        }
    }
}

/// What the user is told after a menu line that selects no option.
pub open spec fn invalid_choice_notice() -> Seq<char> {
    "Please choose a valid option."@
}

/// What the user is told after an add-sentence that names no person and
/// department.
pub open spec fn malformed_command_notice() -> Seq<char> {
    "No valid department or name found in the command!"@
}

/// What the user is told after a blank department line.
pub open spec fn empty_department_notice() -> Seq<char> {
    "Please enter the department name."@
}

/// `s` without the `+` that it may start with.
pub open spec fn unsigned_body(s: Seq<char>) -> Seq<char> {
    if s.len() > 0 && s[0] == '+' {
        s.drop_first()
    } else {
        s
    }
}

/// The number that `s` writes: an optional `+`, then one or more digits
/// and nothing else. `None` for every other text.
pub open spec fn unsigned_decimal(s: Seq<char>) -> Option<nat> {
    let body = unsigned_body(s);
    if body.len() > 0 && all_digits(body) {
        Some(digits_value(body))
    } else {
        None
    }
}

/// The option that a menu line selects: the line, without the whitespace
/// around it, must write one of the numbers 1 to 4.
pub open spec fn menu_choice(line: Seq<char>) -> Result<MenuOption, InputError> {
    match unsigned_decimal(trimmed(line)) {
        Some(n) => if n == 1 {
            Ok(MenuOption::AddMember)
        } else if n == 2 {
            Ok(MenuOption::ListDepartment)
        } else if n == 3 {
            Ok(MenuOption::ListAll)
        } else if n == 4 {
            Ok(MenuOption::Exit)
        } else {
            Err(InputError::InvalidMenuChoice)
        },
        None => Err(InputError::InvalidMenuChoice),
    }
}

/// The word `add`.
pub open spec fn add_keyword() -> Seq<char> {
    "add"@
}

/// The word `to`.
pub open spec fn to_keyword() -> Seq<char> {
    "to"@
}

/// Whether a word is `add` or `to` in any casing; such words carry no
/// name.
pub open spec fn is_keyword(word: Seq<char>) -> bool {
    lowercase(word) == add_keyword() || lowercase(word) == to_keyword()
}

/// The test that keeps the words that may be names.
pub open spec fn may_be_name() -> spec_fn(Seq<char>) -> bool {
    |word: Seq<char>| !is_keyword(word)
}

/// The words of a sentence that may be names, from left to right.
pub open spec fn candidates(sentence: Seq<char>) -> Seq<Seq<char>> {
    words(sentence).filter(may_be_name())
}

/// What an add-sentence asks for: the last candidate is the department,
/// the one before it the person, both in lowercase. With fewer than two
/// candidates the sentence is invalid.
pub open spec fn add_command(sentence: Seq<char>) -> CommandView {
    let found = candidates(sentence);
    if found.len() >= 2 {
        CommandView::AddMember {
            department: lowercase(found[found.len() - 1]),
            name: lowercase(found[found.len() - 2]),
        }
    } else {
        CommandView::Invalid { reason: malformed_command_notice() }
    }
}

/// What a department line asks for: the line without the whitespace
/// around it, in lowercase, unless nothing is left of it.
pub open spec fn department_query(line: Seq<char>) -> CommandView {
    let department = lowercase(trimmed(line));
    if department.len() == 0 {
        CommandView::Invalid { reason: empty_department_notice() }
    } else {
        CommandView::ListDepartment { department }
    }
}

/// A sentence of four words, `add` in any casing, a name, `to` in any
/// casing and a department, with whitespace between them and maybe around
/// them, asks to add that person to that department, both in lowercase.
/// The name and the department must not themselves be `add` or `to`.
pub proof fn law_add_sentence(
    verb: Seq<char>,
    name: Seq<char>,
    preposition: Seq<char>,
    department: Seq<char>,
    gaps: (Seq<char>, Seq<char>, Seq<char>),
    margins: (Seq<char>, Seq<char>),
)
    requires
        is_word(verb),
        is_word(name),
        is_word(preposition),
        is_word(department),
        is_gap(gaps.0),
        is_gap(gaps.1),
        is_gap(gaps.2),
        is_margin(margins.0),
        is_margin(margins.1),
        lowercase(verb) == add_keyword(),
        lowercase(preposition) == to_keyword(),
        !is_keyword(name),
        !is_keyword(department),
    ensures
        add_command(
            margins.0 + verb + gaps.0 + name + gaps.1 + preposition + gaps.2 + department
                + margins.1,
        ) == (CommandView::AddMember {
            department: lowercase(department),
            name: lowercase(name),
        }),
{
    let sentence = margins.0 + verb + gaps.0 + name + gaps.1 + preposition + gaps.2 + department
        + margins.1;
    let last = department + margins.1;
    let tail = preposition + gaps.2 + last;
    let middle = name + gaps.1 + tail;
    let core = verb + gaps.0 + middle;
    assert(sentence =~= margins.0 + core);
    lemma_words_skip_gap(margins.0, core);
    lemma_words_of_word_then_gap(verb, gaps.0, middle);
    lemma_words_of_word_then_gap(name, gaps.1, tail);
    lemma_words_of_word_then_gap(preposition, gaps.2, last);
    lemma_words_of_word(department, margins.1);
    let all = seq![verb, name, preposition, department];
    assert(words(sentence) =~= all);
    let kept = seq![name, department];
    let keep = may_be_name();
    assert(all.filter(keep) =~= kept) by {
        reveal_with_fuel(Seq::filter, 5);
        let three = all.drop_last();
        let two = three.drop_last();
        let one = two.drop_last();
        assert(one.drop_last() =~= Seq::<Seq<char>>::empty());
        assert(one.last() == verb);
        assert(two.last() == name);
        assert(three.last() == preposition);
        assert(all.last() == department);
        assert(!keep(verb));
        assert(keep(name));
        assert(!keep(preposition));
        assert(keep(department));
    }
}

/// A sentence with fewer than two words is invalid, and so is every
/// sentence in which fewer than two words are left once `add` and `to` are
/// set aside.
pub proof fn law_short_sentence_is_invalid(sentence: Seq<char>)
    requires
        words(sentence).len() < 2 || candidates(sentence).len() < 2,
    ensures
        add_command(sentence) == (CommandView::Invalid {
            reason: malformed_command_notice(),
        }),
{
    words(sentence).lemma_filter_len(may_be_name());
}

/// What an add-sentence names is in lowercase form, and was taken from
/// words of the sentence that are neither `add` nor `to`.
pub proof fn law_add_command_names(sentence: Seq<char>)
    requires
        add_command(sentence) is AddMember,
    ensures
        exists|word: Seq<char>|
            is_word(word) && !is_keyword(word) && #[trigger] lowercase(word) == add_command(
                sentence,
            )->AddMember_department,
        exists|word: Seq<char>|
            is_word(word) && !is_keyword(word) && #[trigger] lowercase(word) == add_command(
                sentence,
            )->name,
{
    let all = words(sentence);
    let found = candidates(sentence);
    let keep = may_be_name();
    let d = found[found.len() - 1];
    let p = found[found.len() - 2];
    lemma_words_are_words(sentence);
    all.lemma_filter_pred(keep, found.len() - 1);
    all.lemma_filter_pred(keep, found.len() - 2);
    all.lemma_filter_contains_rev(keep, d);
    all.lemma_filter_contains_rev(keep, p);
    assert(found.contains(d));
    assert(found.contains(p));
    assert(is_word(d));
    assert(is_word(p));
    assert(lowercase(d) == add_command(sentence)->AddMember_department);
    assert(lowercase(p) == add_command(sentence)->name);
}

/// Whether a word is `add` or `to` in any casing.
pub fn is_keyword_word(word: &str) -> (found: bool)
    ensures
        found == is_keyword(word@),
{
    let lower = word.to_lowercase();
    lower == String::from_str("add") || lower == String::from_str("to")
}

/// Reads a menu line.
///
/// The line is trimmed and read as a number in base ten, with an
/// optional `+` in front; 1 to 4 select an option, everything else is an
/// invalid choice.
pub fn parse_menu_option(line: &str) -> (choice: Result<MenuOption, InputError>)
    ensures
        choice == menu_choice(line@),
{
    let trimmed_line = trim(line);
    let chars = characters(trimmed_line.as_str());
    let n = chars.len();
    let start: usize = if n > 0 && chars[0] == '+' {
        1
    } else {
        0
    };
    let ghost body = chars@.skip(start as int);
    proof {
        if start == 1 {
            assert(body =~= chars@.drop_first());
        } else {
            assert(body =~= chars@);
        }
    }
    if start == n {
        return Err(InputError::InvalidMenuChoice);
    }
    let mut value: u8 = 0;
    let mut i: usize = start;
    while i < n
        invariant
            n == chars.len(),
            start <= i <= n,
            chars@ == trimmed(line@),
            body == unsigned_body(chars@),
            body.len() == n - start,
            forall|j: int| 0 <= j < i - start ==> is_digit(#[trigger] body[j]),
            value <= 5,
            value < 5 ==> digits_value(body.take(i - start)) == value,
            value == 5 ==> digits_value(body.take(i - start)) >= 5,
        decreases n - i,
    {
        let c = chars[i];
        if !(c >= '0' && c <= '9') {
            proof {
                assert(body[i - start] == c);
            }
            return Err(InputError::InvalidMenuChoice);
        }
        let digit: u8 = (c as u32 - '0' as u32) as u8;
        proof {
            let prefix = body.take(i - start + 1);
            assert(prefix.last() == c);
            assert(prefix.drop_last() =~= body.take(i - start));
            lemma_digits_value_grows(prefix);
            assert(body[i - start] == c);
        }
        value = if value >= 5 || value * 10 + digit >= 5 {
            5
        } else {
            value * 10 + digit
        };
        i += 1;
    }
    proof {
        assert(body.take(n - start) =~= body);
    }
    if value == 1 {
        Ok(MenuOption::AddMember)
    } else if value == 2 {
        Ok(MenuOption::ListDepartment)
    } else if value == 3 {
        Ok(MenuOption::ListAll)
    } else if value == 4 {
        Ok(MenuOption::Exit)
    } else {
        Err(InputError::InvalidMenuChoice)
    }
}

/// Reads an add-sentence.
///
/// The words are scanned from the right and those that are `add` or
/// `to` in any casing are passed over. The first word kept is the
/// department, the second the person; both come back in lowercase. A
/// sentence with fewer than two such words is invalid.
pub fn parse_add_command(sentence: &str) -> (command: ParsedCommand)
    ensures
        command@ == add_command(sentence@),
        command is Invalid <==> candidates(sentence@).len() < 2,
{
    let tokens = split_words(sentence);
    let ghost all = texts(tokens@);
    let mut department: Option<String> = None;
    let mut name: Option<String> = None;
    let mut i: usize = tokens.len();
    proof {
        assert(all.skip(i as int) =~= Seq::<Seq<char>>::empty());
        reveal(Seq::filter);
    }
    while i > 0 && name.is_none()
        invariant
            i <= tokens.len(),
            all == texts(tokens@),
            all.skip(i as int).filter(may_be_name()).len() <= 2,
            department is None <==> all.skip(i as int).filter(may_be_name()).len() == 0,
            name is None <==> all.skip(i as int).filter(may_be_name()).len() < 2,
            department matches Some(d) ==> d@ == all.skip(i as int).filter(may_be_name()).last(),
            name matches Some(p) ==> p@ == all.skip(i as int).filter(may_be_name()).first(),
        decreases i,
    {
        let ghost before = all.skip(i as int).filter(may_be_name());
        i -= 1;
        let token: &String = &tokens[i];
        let keyword = is_keyword_word(token.as_str());
        proof {
            let head = seq![all[i as int]];
            assert(all.skip(i as int) =~= head + all.skip(i + 1));
            Seq::filter_distributes_over_add(head, all.skip(i + 1), may_be_name());
            reveal_with_fuel(Seq::filter, 2);
            assert(head.drop_last() =~= Seq::<Seq<char>>::empty());
            assert(head.last() == token@);
            if keyword {
                assert(head.filter(may_be_name()) =~= Seq::<Seq<char>>::empty());
                assert(all.skip(i as int).filter(may_be_name()) =~= before);
            } else {
                assert(head.filter(may_be_name()) =~= head);
                assert(all.skip(i as int).filter(may_be_name()) =~= head + before);
            }
        }
        if !keyword {
            if department.is_none() {
                department = Some(token.clone());
            } else {
                name = Some(token.clone());
            }
        }
    }
    proof {
        let front = all.take(i as int);
        let back = all.skip(i as int);
        assert(all =~= front + back);
        Seq::filter_distributes_over_add(front, back, may_be_name());
        if i == 0 {
            assert(front =~= Seq::<Seq<char>>::empty());
            reveal(Seq::filter);
            assert(front.filter(may_be_name()) =~= Seq::<Seq<char>>::empty());
            assert(candidates(sentence@) =~= back.filter(may_be_name()));
        }
    }
    match (department, name) {
        (Some(d), Some(p)) => ParsedCommand::AddMember {
            department: d.as_str().to_lowercase(),
            name: p.as_str().to_lowercase(),
        },
        _ => ParsedCommand::Invalid {
            reason: String::from_str("No valid department or name found in the command!"),
        },
    }
}

/// Reads the line that names the department to list.
///
/// The line is trimmed and put in lowercase; a line of which nothing is
/// left is turned down.
pub fn parse_department_query(line: &str) -> (command: ParsedCommand)
    ensures
        command@ == department_query(line@),
{
    let department = trim(line).as_str().to_lowercase();
    if department.as_str().is_empty() {
        ParsedCommand::Invalid { reason: String::from_str("Please enter the department name.") }
    } else {
        ParsedCommand::ListDepartment { department }
    }
}

} // verus!
