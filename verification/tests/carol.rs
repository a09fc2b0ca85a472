use chapter_exercises::carol::{carol, gift_name, ordinal_name, verse};

#[test]
fn first_verse() {
    assert_eq!(
        verse(1),
        vec![
            "On the first day of Christmas, my true love sent to me,",
            "A partridge in a pear tree,",
            "",
        ]
    );
}

#[test]
fn third_verse_lists_the_gifts_oldest_first() {
    assert_eq!(
        verse(3),
        vec![
            "On the third day of Christmas, my true love sent to me,",
            "Two turtle doves and,",
            "Three french hens,",
            "A partridge in a pear tree,",
            "",
        ]
    );
}

#[test]
fn last_verse() {
    let lines = verse(12);
    assert_eq!(lines.len(), 14);
    assert_eq!(lines[0], "On the twelfth day of Christmas, my true love sent to me,");
    assert_eq!(lines[11], "Twelve drummers drumming,");
    assert_eq!(lines[12], "A partridge in a pear tree,");
    assert_eq!(lines[13], "");
}

#[test]
fn names_of_days_and_gifts() {
    assert_eq!(ordinal_name(1), "first");
    assert_eq!(ordinal_name(5), "fifth");
    assert_eq!(ordinal_name(12), "twelfth");
    assert_eq!(gift_name(1), "Two turtle doves and");
    assert_eq!(gift_name(4), "Five golden rings");
    assert_eq!(gift_name(11), "Twelve drummers drumming");
}

#[test]
fn the_carol_is_the_twelve_verses() {
    let mut expected: Vec<String> = Vec::new();
    for day in 1..=12 {
        expected.extend(verse(day));
    }
    let lines = carol();
    assert_eq!(lines, expected);
    // 12 openings, 12 partridges, 12 blank lines and 0 + 1 + ... + 11 gifts.
    assert_eq!(lines.len(), 36 + 66);
}
