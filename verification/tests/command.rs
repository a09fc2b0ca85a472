use chapter_exercises::command::{
    is_keyword_word, parse_add_command, parse_department_query, parse_menu_option, InputError,
    MenuOption, ParsedCommand,
};

fn add_member(department: &str, name: &str) -> ParsedCommand {
    ParsedCommand::AddMember { department: department.to_string(), name: name.to_string() }
}

fn malformed() -> ParsedCommand {
    ParsedCommand::Invalid {
        reason: "No valid department or name found in the command!".to_string(),
    }
}

#[test]
fn add_sentence_gives_name_and_department() {
    assert_eq!(
        parse_add_command("add Rajneesh to Engineering"),
        add_member("engineering", "rajneesh")
    );
    assert_eq!(parse_add_command("add Priya to Sales"), add_member("sales", "priya"));
}

#[test]
fn add_sentence_in_any_casing() {
    assert_eq!(parse_add_command("ADD sachin TO sales"), add_member("sales", "sachin"));
    assert_eq!(parse_add_command("Add SACHIN tO SaLeS"), add_member("sales", "sachin"));
    assert_eq!(parse_add_command("aDD Émile To Café"), add_member("café", "émile"));
}

#[test]
fn add_sentence_with_any_whitespace_between_words() {
    assert_eq!(parse_add_command("  add\tAmir   to \n Sales  "), add_member("sales", "amir"));
    assert_eq!(parse_add_command("add\u{a0}Amir\u{3000}to\u{2003}Sales"), add_member("sales", "amir"));
}

#[test]
fn sentences_without_two_names_are_invalid() {
    assert_eq!(parse_add_command("add to"), malformed());
    assert_eq!(parse_add_command(""), malformed());
    assert_eq!(parse_add_command("hello"), malformed());
    assert_eq!(parse_add_command("   \t\n"), malformed());
    assert_eq!(parse_add_command("add Priya to"), malformed());
    assert_eq!(parse_add_command("ADD TO add To tO"), malformed());
    assert_eq!(parse_add_command("add add to sales"), malformed());
}

#[test]
fn normalization_is_idempotent() {
    let upper = parse_add_command("ADD RAJNEESH TO ENGINEERING");
    let lower = parse_add_command("add rajneesh to engineering");
    assert_eq!(upper, lower);
    assert_eq!(upper, add_member("engineering", "rajneesh"));
}

#[test]
fn only_the_last_two_names_count() {
    assert_eq!(
        parse_add_command("add Mary Ann to Human Resources"),
        add_member("resources", "human")
    );
    assert_eq!(parse_add_command("please add Amir to the Sales"), add_member("sales", "the"));
}

#[test]
fn command_words_are_not_needed() {
    assert_eq!(parse_add_command("priya sales"), add_member("sales", "priya"));
    assert_eq!(parse_add_command("to sales add priya"), add_member("priya", "sales"));
}

#[test]
fn keywords_are_recognised_in_any_casing() {
    assert!(is_keyword_word("add"));
    assert!(is_keyword_word("ADD"));
    assert!(is_keyword_word("To"));
    assert!(is_keyword_word("tO"));
    assert!(!is_keyword_word("adds"));
    assert!(!is_keyword_word("too"));
    assert!(!is_keyword_word(""));
    assert!(!is_keyword_word("sales"));
}

#[test]
fn menu_numbers_select_options() {
    assert_eq!(parse_menu_option("1"), Ok(MenuOption::AddMember));
    assert_eq!(parse_menu_option("2"), Ok(MenuOption::ListDepartment));
    assert_eq!(parse_menu_option("3"), Ok(MenuOption::ListAll));
    assert_eq!(parse_menu_option("4"), Ok(MenuOption::Exit));
}

#[test]
fn menu_line_is_trimmed() {
    assert_eq!(parse_menu_option("1\n"), Ok(MenuOption::AddMember));
    assert_eq!(parse_menu_option("  3 \r\n"), Ok(MenuOption::ListAll));
    assert_eq!(parse_menu_option("\t4\t"), Ok(MenuOption::Exit));
}

#[test]
fn menu_number_may_carry_a_plus_and_zeros() {
    assert_eq!(parse_menu_option("+2"), Ok(MenuOption::ListDepartment));
    assert_eq!(parse_menu_option("01"), Ok(MenuOption::AddMember));
    assert_eq!(parse_menu_option("+0004"), Ok(MenuOption::Exit));
    assert_eq!(parse_menu_option("0000000000000000000000000000003"), Ok(MenuOption::ListAll));
}

#[test]
fn other_menu_lines_are_invalid() {
    let invalid = Err(InputError::InvalidMenuChoice);
    assert_eq!(parse_menu_option("5"), invalid);
    assert_eq!(parse_menu_option("0"), invalid);
    assert_eq!(parse_menu_option(""), invalid);
    assert_eq!(parse_menu_option("   \n"), invalid);
    assert_eq!(parse_menu_option("abc"), invalid);
    assert_eq!(parse_menu_option("1 2"), invalid);
    assert_eq!(parse_menu_option("-1"), invalid);
    assert_eq!(parse_menu_option("+"), invalid);
    assert_eq!(parse_menu_option("++1"), invalid);
    assert_eq!(parse_menu_option("1+"), invalid);
    assert_eq!(parse_menu_option("1.0"), invalid);
    assert_eq!(parse_menu_option("2x"), invalid);
    assert_eq!(parse_menu_option("10"), invalid);
    assert_eq!(parse_menu_option("14"), invalid);
    assert_eq!(parse_menu_option("256"), invalid);
    assert_eq!(parse_menu_option("257"), invalid);
    assert_eq!(parse_menu_option("99999999999999999999999999"), invalid);
    assert_eq!(parse_menu_option("\u{ff11}"), invalid);
}

#[test]
fn menu_agrees_with_the_integer_parser() {
    let lines = [
        "1", "2", "3", "4", "5", "0", "+1", "+4", "-2", "004", " 2 ", "2 3", "", "+", "3\n",
        "٣", "4.", "1e0", "0x2", "260", "513",
    ];
    for line in lines {
        let expected = match line.trim().parse::<u8>() {
            Ok(1) => Ok(MenuOption::AddMember),
            Ok(2) => Ok(MenuOption::ListDepartment),
            Ok(3) => Ok(MenuOption::ListAll),
            Ok(4) => Ok(MenuOption::Exit),
            _ => Err(InputError::InvalidMenuChoice),
        };
        assert_eq!(parse_menu_option(line), expected, "line {:?}", line);
    }
}

#[test]
fn department_line_is_trimmed_and_lowered() {
    assert_eq!(
        parse_department_query("  Sales \n"),
        ParsedCommand::ListDepartment { department: "sales".to_string() }
    );
    assert_eq!(
        parse_department_query("Human Resources"),
        ParsedCommand::ListDepartment { department: "human resources".to_string() }
    );
}

#[test]
fn blank_department_line_is_invalid() {
    let invalid =
        ParsedCommand::Invalid { reason: "Please enter the department name.".to_string() };
    assert_eq!(parse_department_query(""), invalid);
    assert_eq!(parse_department_query(" \t \n"), invalid);
}
