//! The Twelve Days of Christmas.

use vstd::prelude::*;
use crate::text::texts;

verus! {

/// How the day is called in the first line of its verse.
pub open spec fn ordinal(day: nat) -> Seq<char> {
    if day == 1 {
        "first"@
    } else if day == 2 {
        "second"@
    } else if day == 3 {
        "third"@
    } else if day == 4 {
        "fourth"@
    } else if day == 5 {
        "fifth"@
    } else if day == 6 {
        "sixth"@
    } else if day == 7 {
        "seventh"@
    } else if day == 8 {
        "eighth"@
    } else if day == 9 {
        "ninth"@
    } else if day == 10 {
        "tenth"@
    } else if day == 11 {
        "eleventh"@
    } else {
        "twelfth"@
    }
}

/// The gift that the day after day `number` brings for the first time.
pub open spec fn gift(number: nat) -> Seq<char> {
    if number == 1 {
        "Two turtle doves and"@
    } else if number == 2 {
        "Three french hens"@
    } else if number == 3 {
        "Four calling birds"@
    } else if number == 4 {
        "Five golden rings"@
    } else if number == 5 {
        "Six geese a-laying"@
    } else if number == 6 {
        "Seven swans a-swimming"@
    } else if number == 7 {
        "Eight maids a-milking"@
    } else if number == 8 {
        "Nine ladies dancing"@
    } else if number == 9 {
        "Ten lords a-leaping"@
    } else if number == 10 {
        "Eleven pipers piping"@
    } else {
        "Twelve drummers drumming"@
    }
}

/// The first line of the verse of a day.
pub open spec fn opening(day: nat) -> Seq<char> {
    "On the "@ + ordinal(day) + " day of Christmas, my true love sent to me,"@
}

/// The lines of the gifts in the verse of a day: those of the days before
/// it, the oldest first, each with a comma behind it.
pub open spec fn gift_lines(day: nat) -> Seq<Seq<char>> {
    Seq::new((day - 1) as nat, |i: int| gift((i + 1) as nat) + seq![','])
}

/// The verse of a day: the opening, the gifts, the partridge and a blank
/// line.
pub open spec fn verse_text(day: nat) -> Seq<Seq<char>> {
    seq![opening(day)] + gift_lines(day) + seq![
        "A partridge in a pear tree,"@,
        Seq::<char>::empty(),
    ]
}

/// The verses of the first `days` days, one after the other.
pub open spec fn carol_text(days: nat) -> Seq<Seq<char>>
    decreases days,
{
    if days == 0 {
        Seq::empty()
    } else {
        carol_text((days - 1) as nat) + verse_text(days)
    }
}

/// How the day is called in the first line of its verse.
pub fn ordinal_name(day: usize) -> (name: &'static str)
    requires
        1 <= day <= 12,
    ensures
        name@ == ordinal(day as nat),
{
    if day == 1 {
        "first"
    } else if day == 2 {
        "second"
    } else if day == 3 {
        "third"
    } else if day == 4 {
        "fourth"
    } else if day == 5 {
        "fifth"
    } else if day == 6 {
        "sixth"
    } else if day == 7 {
        "seventh"
    } else if day == 8 {
        "eighth"
    } else if day == 9 {
        "ninth"
    } else if day == 10 {
        "tenth"
    } else if day == 11 {
        "eleventh"
    } else {
        "twelfth"
    }
}

/// The gift that the day after day `number` brings for the first time.
pub fn gift_name(number: usize) -> (name: &'static str)
    requires
        1 <= number <= 11,
    ensures
        name@ == gift(number as nat),
{
    if number == 1 {
        "Two turtle doves and"
    } else if number == 2 {
        "Three french hens"
    } else if number == 3 {
        "Four calling birds"
    } else if number == 4 {
        "Five golden rings"
    } else if number == 5 {
        "Six geese a-laying"
    } else if number == 6 {
        "Seven swans a-swimming"
    } else if number == 7 {
        "Eight maids a-milking"
    } else if number == 8 {
        "Nine ladies dancing"
    } else if number == 9 {
        "Ten lords a-leaping"
    } else if number == 10 {
        "Eleven pipers piping"
    } else {
        "Twelve drummers drumming"
    }
}

/// The verse of one of the twelve days.
pub fn verse(day: usize) -> (lines: Vec<String>)
    requires
        1 <= day <= 12,
    ensures
        texts(lines@) == verse_text(day as nat),
{
    let mut lines: Vec<String> = Vec::new();
    let mut first = String::from_str("On the ");
    first.append(ordinal_name(day));
    first.append(" day of Christmas, my true love sent to me,");
    lines.push(first);
    let ghost head = seq![opening(day as nat)];
    proof {
        assert(texts(lines@) =~= head + gift_lines(day as nat).take(0));
    }
    let mut i: usize = 1;
    while i < day
        invariant
            1 <= i <= day <= 12,
            head == seq![opening(day as nat)],
            texts(lines@) == head + gift_lines(day as nat).take(i - 1),
        decreases day - i,
    {
        let ghost so_far = texts(lines@);
        let mut line = String::from_str(gift_name(i));
        line.push(',');
        proof {
            assert(gift_lines(day as nat)[i - 1] == gift(i as nat) + seq![',']);
            assert(line@ =~= gift_lines(day as nat)[i - 1]);
        }
        lines.push(line);
        proof {
            assert(texts(lines@) =~= so_far.push(gift_lines(day as nat)[i - 1]));
            assert(texts(lines@) =~= head + gift_lines(day as nat).take(i as int));
        }
        i += 1;
    }
    let ghost body = texts(lines@);
    lines.push(String::from_str("A partridge in a pear tree,"));
    lines.push(String::new());
    proof {
        assert(gift_lines(day as nat).take(day - 1) =~= gift_lines(day as nat));
        assert(texts(lines@) =~= body.push("A partridge in a pear tree,"@).push(
            Seq::<char>::empty(),
        ));
        assert(texts(lines@) =~= verse_text(day as nat));
    }
    lines
}

/// The whole carol: the verses of the twelve days.
pub fn carol() -> (lines: Vec<String>)
    ensures
        texts(lines@) == carol_text(12),
{
    let mut lines: Vec<String> = Vec::new();
    let mut day: usize = 1;
    proof {
        assert(texts(lines@) =~= carol_text(0));
    }
    while day < 13
        invariant
            1 <= day <= 13,
            texts(lines@) == carol_text((day - 1) as nat),
        decreases 13 - day,
    {
        crate::report::append_lines(&mut lines, verse(day));
        day += 1;
    }
    lines
}

} // verus!
