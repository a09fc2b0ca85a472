use chapter_exercises::command::{InputError, ParsedCommand};
use chapter_exercises::report::menu;
use chapter_exercises::session::{Input, Phase, Reply, Session};

fn line(text: &str) -> Input {
    Input::Line(text.to_string())
}

fn lines(list: &[&str]) -> Vec<String> {
    list.iter().map(|s| s.to_string()).collect()
}

fn with_menu(list: &[&str]) -> Vec<String> {
    let mut all = lines(list);
    all.extend(menu());
    all
}

#[test]
fn menu_has_four_options() {
    assert_eq!(
        menu(),
        lines(&[
            "Choose Options:",
            "1. Enter the text to add people to departments.",
            "2. See the list of one department and their people.",
            "3. See the list of all departments and their people.",
            "4. Exit.",
        ])
    );
}

#[test]
fn add_then_list_one_department() {
    let mut session = Session::new();
    assert_eq!(session.phase(), Phase::Prompting);

    let reply = session.step(&line("1\n"));
    assert_eq!(reply, Reply { lines: lines(&["", "Please enter the command:"]), error: None });
    assert_eq!(session.phase(), Phase::DispatchingAdd);

    let reply = session.step(&line("add Priya to Sales\n"));
    assert_eq!(reply, Reply { lines: with_menu(&[""]), error: None });
    assert_eq!(session.phase(), Phase::Prompting);

    let reply = session.step(&line("2\n"));
    assert_eq!(reply, Reply { lines: lines(&["Please enter the department name:"]), error: None });
    assert_eq!(session.phase(), Phase::DispatchingList);

    let reply = session.step(&line("sales\n"));
    assert_eq!(
        reply,
        Reply { lines: with_menu(&["", "1 people found.", "1. priya", ""]), error: None }
    );
    assert_eq!(session.phase(), Phase::Prompting);
    let listed: Vec<&String> = reply.lines.iter().filter(|l| l.contains("priya")).collect();
    assert_eq!(listed, vec!["1. priya"]);
}

#[test]
fn invalid_choice_shows_the_menu_again_and_changes_nothing() {
    let mut session = Session::new();
    session.step(&line("1"));
    session.step(&line("add Priya to Sales"));
    let before = session.roster().list_all();

    let reply = session.step(&line("5\n"));
    assert_eq!(
        reply,
        Reply {
            lines: with_menu(&["Please choose a valid option."]),
            error: Some(InputError::InvalidMenuChoice),
        }
    );
    assert_eq!(session.phase(), Phase::Prompting);
    assert_eq!(session.roster().list_all(), before);

    let reply = session.step(&line("five\n"));
    assert_eq!(reply.lines, with_menu(&["Please choose a valid option."]));
    assert_eq!(session.roster().list_all(), before);
}

#[test]
fn exit_says_farewell_and_terminates() {
    let mut session = Session::new();
    assert!(!session.is_terminated());
    let reply = session.step(&line("4\n"));
    assert_eq!(reply, Reply { lines: lines(&["Exiting..."]), error: None });
    assert_eq!(session.phase(), Phase::Terminated);
    assert!(session.is_terminated());

    let reply = session.step(&line("1\n"));
    assert_eq!(reply, Reply { lines: Vec::new(), error: None });
    assert!(session.is_terminated());
    let reply = session.step(&Input::Failure);
    assert_eq!(reply, Reply { lines: Vec::new(), error: None });
    assert!(session.roster().list_all().is_empty());
}

#[test]
fn missing_menu_line() {
    let mut session = Session::new();
    let reply = session.step(&line(""));
    assert_eq!(
        reply,
        Reply {
            lines: with_menu(&["Please choose an option."]),
            error: Some(InputError::InvalidMenuChoice),
        }
    );
    let reply = session.step(&line("\n"));
    assert_eq!(reply.lines, with_menu(&["Please choose a valid option."]));
}

#[test]
fn malformed_add_sentence_changes_nothing() {
    let mut session = Session::new();
    session.step(&line("1"));
    let reply = session.step(&line("add to\n"));
    assert_eq!(
        reply,
        Reply {
            lines: with_menu(&["No valid department or name found in the command!"]),
            error: Some(InputError::MalformedAddCommand),
        }
    );
    assert_eq!(session.phase(), Phase::Prompting);
    assert!(session.roster().list_all().is_empty());
}

#[test]
fn blank_department_is_turned_down() {
    let mut session = Session::new();
    session.step(&line("2"));
    let reply = session.step(&line("   \n"));
    assert_eq!(
        reply,
        Reply {
            lines: with_menu(&["Please enter the department name."]),
            error: Some(InputError::EmptyDepartmentQuery),
        }
    );
    assert_eq!(session.phase(), Phase::Prompting);
}

#[test]
fn unknown_department_finds_nobody() {
    let mut session = Session::new();
    session.step(&line("2"));
    let reply = session.step(&line("sales\n"));
    assert_eq!(reply, Reply { lines: with_menu(&["0 people found."]), error: None });
}

#[test]
fn members_are_numbered_with_commas_between() {
    let mut session = Session::new();
    for sentence in ["add Priya to Sales", "ADD AMIR TO SALES", "add Zoe to sales"] {
        session.step(&line("1"));
        session.step(&line(sentence));
    }
    session.step(&line("2"));
    let reply = session.step(&line(" SALES \n"));
    assert_eq!(
        reply.lines,
        with_menu(&["", "3 people found.", "1. priya,", "2. amir,", "3. zoe", ""])
    );
}

#[test]
fn a_long_department_is_counted_in_base_ten() {
    let mut session = Session::new();
    for _ in 0..12 {
        session.step(&line("1"));
        session.step(&line("add Priya to Sales"));
    }
    session.step(&line("2"));
    let reply = session.step(&line("sales"));
    assert_eq!(reply.lines[1], "12 people found.");
    assert_eq!(reply.lines[2], "1. priya,");
    assert_eq!(reply.lines[11], "10. priya,");
    assert_eq!(reply.lines[13], "12. priya");
    assert_eq!(reply.lines[14], "");
}

#[test]
fn list_all_frames_the_pairs() {
    let mut session = Session::new();
    let reply = session.step(&line("3\n"));
    assert_eq!(
        reply,
        Reply {
            lines: with_menu(&[
                "",
                "-------------------",
                "Department | Name",
                "-------------------",
                "",
            ]),
            error: None,
        }
    );
    for sentence in ["add Priya to Sales", "add Rajneesh to Engineering", "add Amir to Sales"] {
        session.step(&line("1"));
        session.step(&line(sentence));
    }
    let reply = session.step(&line("3\n"));
    assert_eq!(session.phase(), Phase::Prompting);
    assert_eq!(reply.lines[..3], lines(&["", "-------------------", "Department | Name"])[..]);
    assert_eq!(reply.lines[6..8], lines(&["-------------------", ""])[..]);
    assert_eq!(reply.lines[8..], menu()[..]);
    // The order of the departments is not specified: compare sorted.
    let mut pairs = reply.lines[3..6].to_vec();
    pairs.sort();
    assert_eq!(pairs, lines(&["engineering | rajneesh", "sales | amir", "sales | priya"]));
}

#[test]
fn a_failed_read_is_answered_like_a_line_not_understood() {
    let mut session = Session::new();
    let reply = session.step(&Input::Failure);
    assert_eq!(
        reply,
        Reply {
            lines: with_menu(&["Please choose a valid option."]),
            error: Some(InputError::InputReadFailure),
        }
    );
    assert_eq!(session.phase(), Phase::Prompting);

    session.step(&line("1"));
    let reply = session.step(&Input::Failure);
    assert_eq!(
        reply,
        Reply {
            lines: with_menu(&["No valid department or name found in the command!"]),
            error: Some(InputError::InputReadFailure),
        }
    );
    assert_eq!(session.phase(), Phase::Prompting);

    session.step(&line("2"));
    let reply = session.step(&Input::Failure);
    assert_eq!(
        reply,
        Reply {
            lines: with_menu(&["Please enter the department name."]),
            error: Some(InputError::InputReadFailure),
        }
    );
    assert_eq!(session.phase(), Phase::Prompting);
    assert!(session.roster().list_all().is_empty());
}

#[test]
fn commands_can_be_carried_out_directly() {
    let mut session = Session::new();
    let shown = session.execute(&ParsedCommand::AddMember {
        department: "Sales".to_string(),
        name: "Priya".to_string(),
    });
    assert_eq!(shown, with_menu(&[""]));
    assert_eq!(session.roster().list_department("sales"), Some(lines(&["priya"])));

    let shown =
        session.execute(&ParsedCommand::ListDepartment { department: "SALES".to_string() });
    assert_eq!(shown, with_menu(&["", "1 people found.", "1. priya", ""]));

    let shown =
        session.execute(&ParsedCommand::ListDepartment { department: "legal".to_string() });
    assert_eq!(shown, with_menu(&["0 people found."]));

    let shown = session.execute(&ParsedCommand::ListAll);
    assert_eq!(
        shown,
        with_menu(&[
            "",
            "-------------------",
            "Department | Name",
            "sales | priya",
            "-------------------",
            "",
        ])
    );

    let shown = session.execute(&ParsedCommand::Invalid { reason: "No.".to_string() });
    assert_eq!(shown, with_menu(&["No."]));
    assert_eq!(session.phase(), Phase::Prompting);

    let shown = session.execute(&ParsedCommand::Exit);
    assert_eq!(shown, lines(&["Exiting..."]));
    assert!(session.is_terminated());

    let shown = session.execute(&ParsedCommand::AddMember {
        department: "Sales".to_string(),
        name: "Amir".to_string(),
    });
    assert!(shown.is_empty());
    assert!(session.is_terminated());
    assert_eq!(session.roster().list_department("sales"), Some(lines(&["priya"])));
}

#[test]
fn a_command_ends_the_wait_for_a_line() {
    let mut session = Session::new();
    session.step(&line("1"));
    assert_eq!(session.phase(), Phase::DispatchingAdd);
    session.execute(&ParsedCommand::ListAll);
    assert_eq!(session.phase(), Phase::Prompting);
}
