//! What the program shows: the menu and the listings, line by line.

use vstd::prelude::*;
use crate::roster::{pair_texts, PairView};
use crate::text::{decimal, decimal_text, texts};

verus! {

/// A line without characters.
pub open spec fn blank_line() -> Seq<char> {
    Seq::empty()
}

/// The menu: a heading and the four options.
pub open spec fn menu_text() -> Seq<Seq<char>> {
    seq![
        "Choose Options:"@,
        "1. Enter the text to add people to departments."@,
        "2. See the list of one department and their people."@,
        "3. See the list of all departments and their people."@,
        "4. Exit."@,
    ]
}

/// The line that says how many people were found.
pub open spec fn count_line(count: nat) -> Seq<char> {
    decimal_text(count) + " people found."@
}

/// The line of one member in the list of a department: its number, a dot
/// and a space, the name, and a comma unless the member is the last.
pub open spec fn member_line(number: nat, name: Seq<char>, last: bool) -> Seq<char> {
    decimal_text(number) + seq!['.', ' '] + name + if last {
        Seq::<char>::empty()
    } else {
        seq![',']
    }
}

/// The lines of the members, numbered from one, each but the last with a
/// comma behind it.
pub open spec fn member_lines(members: Seq<Seq<char>>) -> Seq<Seq<char>> {
    Seq::new(
        members.len(),
        |i: int| member_line((i + 1) as nat, members[i], i == members.len() - 1),
    )
}

/// What is shown for a department that the roster knows: a blank line,
/// the count, the members and a blank line.
pub open spec fn members_text(members: Seq<Seq<char>>) -> Seq<Seq<char>> {
    seq![blank_line(), count_line(members.len())] + member_lines(members) + seq![blank_line()]
}

/// What is shown for a department that the roster does not know.
pub open spec fn nobody_text() -> Seq<Seq<char>> {
    seq!["0 people found."@]
}

/// The line of one pair in the list of all departments.
pub open spec fn pair_line(pair: PairView) -> Seq<char> {
    pair.0 + seq![' ', '|', ' '] + pair.1
}

/// The lines of the pairs, in order.
pub open spec fn pair_lines(pairs: Seq<PairView>) -> Seq<Seq<char>> {
    Seq::new(pairs.len(), |i: int| pair_line(pairs[i]))
}

/// What is shown for the whole roster: a blank line, a rule and the
/// heading, a line for each pair, a rule and a blank line.
pub open spec fn listing_text(pairs: Seq<PairView>) -> Seq<Seq<char>> {
    seq![blank_line(), "-------------------"@, "Department | Name"@] + pair_lines(pairs) + seq![
        "-------------------"@,
        blank_line(),
    ]
}

/// Puts the lines of `more` behind those of `lines`.
pub fn append_lines(lines: &mut Vec<String>, more: Vec<String>)
    ensures
        texts(final(lines)@) == texts(old(lines)@) + texts(more@),
{
    let ghost start = texts(lines@);
    let mut i: usize = 0;
    proof {
        assert(texts(lines@) =~= start + texts(more@).take(0));
    }
    while i < more.len()
        invariant
            i <= more@.len(),
            texts(lines@) == start + texts(more@).take(i as int),
        decreases more@.len() - i,
    {
        let ghost so_far = texts(lines@);
        let line = more[i].clone();
        lines.push(line);
        proof {
            assert(texts(lines@) =~= so_far.push(more@[i as int]@));
            assert(texts(lines@) =~= start + texts(more@).take(i + 1));
        }
        i += 1;
    }
    proof {
        assert(texts(more@).take(i as int) =~= texts(more@));
    }
}

/// The menu.
pub fn menu() -> (lines: Vec<String>)
    ensures
        texts(lines@) == menu_text(),
{
    let mut lines: Vec<String> = Vec::new();
    lines.push(String::from_str("Choose Options:"));
    lines.push(String::from_str("1. Enter the text to add people to departments."));
    lines.push(String::from_str("2. See the list of one department and their people."));
    lines.push(String::from_str("3. See the list of all departments and their people."));
    lines.push(String::from_str("4. Exit."));
    proof {
        assert(texts(lines@) =~= menu_text());
    }
    lines
}

/// The list of the members of one department.
pub fn members_report(members: &Vec<String>) -> (lines: Vec<String>)
    ensures
        texts(lines@) == members_text(texts(members@)),
{
    let ghost names = texts(members@);
    let n = members.len();
    let mut lines: Vec<String> = Vec::new();
    lines.push(String::new());
    let mut count = decimal(n);
    count.append(" people found.");
    lines.push(count);
    let ghost head = seq![blank_line(), count_line(names.len())];
    proof {
        assert(texts(lines@) =~= head + member_lines(names).take(0));
    }
    let mut i: usize = 0;
    while i < n
        invariant
            n == members@.len(),
            names == texts(members@),
            i <= n,
            head == seq![blank_line(), count_line(names.len())],
            texts(lines@) == head + member_lines(names).take(i as int),
        decreases n - i,
    {
        let ghost so_far = texts(lines@);
        let mut line = decimal(i + 1);
        line.push('.');
        line.push(' ');
        line.append(members[i].as_str());
        if i + 1 < n {
            line.push(',');
        }
        proof {
            let expected = member_line((i + 1) as nat, names[i as int], i == n - 1);
            assert(line@ =~= expected);
            assert(member_lines(names)[i as int] == expected);
        }
        lines.push(line);
        proof {
            assert(texts(lines@) =~= so_far.push(member_lines(names)[i as int]));
            assert(texts(lines@) =~= head + member_lines(names).take(i + 1));
        }
        i += 1;
    }
    let ghost body = texts(lines@);
    lines.push(String::new());
    proof {
        assert(member_lines(names).take(n as int) =~= member_lines(names));
        assert(texts(lines@) =~= body.push(blank_line()));
        assert(texts(lines@) =~= members_text(names));
    }
    lines
}

/// What is shown for a department that the roster does not know.
pub fn nobody_report() -> (lines: Vec<String>)
    ensures
        texts(lines@) == nobody_text(),
{
    let mut lines: Vec<String> = Vec::new();
    lines.push(String::from_str("0 people found."));
    proof {
        assert(texts(lines@) =~= nobody_text());
    }
    lines
}

/// The list of all departments with their members.
pub fn listing_report(pairs: &Vec<(String, String)>) -> (lines: Vec<String>)
    ensures
        texts(lines@) == listing_text(pair_texts(pairs@)),
{
    let ghost shown = pair_texts(pairs@);
    let n = pairs.len();
    let mut lines: Vec<String> = Vec::new();
    lines.push(String::new());
    lines.push(String::from_str("-------------------"));
    lines.push(String::from_str("Department | Name"));
    let ghost head = seq![blank_line(), "-------------------"@, "Department | Name"@];
    proof {
        assert(texts(lines@) =~= head + pair_lines(shown).take(0));
    }
    let mut i: usize = 0;
    while i < n
        invariant
            n == pairs@.len(),
            shown == pair_texts(pairs@),
            i <= n,
            head == seq![blank_line(), "-------------------"@, "Department | Name"@],
            texts(lines@) == head + pair_lines(shown).take(i as int),
        decreases n - i,
    {
        let ghost so_far = texts(lines@);
        let mut line = pairs[i].0.clone();
        line.push(' ');
        line.push('|');
        line.push(' ');
        line.append(pairs[i].1.as_str());
        proof {
            assert(line@ =~= pair_line(shown[i as int]));
        }
        lines.push(line);
        proof {
            assert(texts(lines@) =~= so_far.push(pair_lines(shown)[i as int]));
            assert(texts(lines@) =~= head + pair_lines(shown).take(i + 1));
        }
        i += 1;
    }
    let ghost body = texts(lines@);
    lines.push(String::from_str("-------------------"));
    lines.push(String::new());
    proof {
        assert(pair_lines(shown).take(n as int) =~= pair_lines(shown));
        assert(texts(lines@) =~= body.push("-------------------"@).push(blank_line()));
        assert(texts(lines@) =~= listing_text(shown));
    }
    lines
}

} // verus!
