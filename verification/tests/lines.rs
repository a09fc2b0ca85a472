use chapter_exercises::lines::last_char_of_first_line;

#[test]
fn last_character_of_the_first_line() {
    assert_eq!(last_char_of_first_line("Hello, world\nHow are you?"), Some('d'));
    assert_eq!(last_char_of_first_line("single"), Some('e'));
    assert_eq!(last_char_of_first_line("x\n"), Some('x'));
    assert_eq!(last_char_of_first_line("été\nhiver"), Some('é'));
}

#[test]
fn no_character_where_there_is_no_line_or_an_empty_one() {
    assert_eq!(last_char_of_first_line(""), None);
    assert_eq!(last_char_of_first_line("\nhi"), None);
    assert_eq!(last_char_of_first_line("\n"), None);
    assert_eq!(last_char_of_first_line("\r\nhi"), None);
}

#[test]
fn carriage_return_belongs_to_the_line_ending_only_before_a_line_feed() {
    assert_eq!(last_char_of_first_line("ab\r\ncd"), Some('b'));
    assert_eq!(last_char_of_first_line("ab\r"), Some('\r'));
    assert_eq!(last_char_of_first_line("ab\r\r\ncd"), Some('\r'));
    assert_eq!(last_char_of_first_line("a\rb\nc"), Some('b'));
    assert_eq!(last_char_of_first_line("\r"), Some('\r'));
}

#[test]
fn agrees_with_the_lines_of_std() {
    let samples = [
        "", "a", "a\n", "\n", "\r\n", "\r", "a\r", "a\r\n", "a\r\nb", "ab\ncd\n", "\n\n", "\r\r\n",
        "x\r\ry", " \n", "é\r\n",
    ];
    for sample in samples {
        let expected = sample.lines().next().and_then(|line| line.chars().last());
        assert_eq!(last_char_of_first_line(sample), expected, "sample {:?}", sample);
    }
}
