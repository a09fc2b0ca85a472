//! The interaction loop as a state machine.
//!
//! A session owns the roster and knows what it is waiting for. The caller
//! shows the menu, reads a line, hands it to [`Session::step`] and shows
//! the lines that come back, until the session has terminated. Reading and
//! printing are the caller's; every decision is taken here.
//!
//! While it prompts, the session waits for a menu choice. Options 1 and 2
//! need one more line, the add-sentence or the department's name, and the
//! session dispatches them when that line arrives; options 3 and 4 are
//! dispatched at once. Whatever goes wrong is said in one line, changes
//! nothing in the roster and leads back to the menu.

use vstd::prelude::*;
use crate::command::{add_command, department_query, empty_department_notice, invalid_choice_notice};
use crate::command::{is_keyword, law_add_command_names};
use crate::command::{malformed_command_notice, menu_choice, parse_add_command};
use crate::command::{parse_department_query, parse_menu_option, CommandView, InputError};
use crate::command::{MenuOption, ParsedCommand};
use crate::report::{append_lines, blank_line, listing_report, listing_text, members_report};
use crate::report::{members_text, menu, menu_text, nobody_report, nobody_text};
use crate::roster::{added, is_listing, members_of, pair_texts, PairView, Roster, RosterView};
use crate::text::{is_word, lowercase, texts};

verus! {

/// What the session is waiting for.
#[derive(Clone, Copy, Debug, PartialEq, Eq, Structural)]
pub enum Phase {
    /// The menu was shown; a choice is awaited.
    Prompting,
    /// Option 1 is being dispatched; the add-sentence is awaited.
    DispatchingAdd,
    /// Option 2 is being dispatched; the department's name is awaited.
    DispatchingList,
    /// The user has left; nothing more is read.
    Terminated,
}

/// What reading a line gave.
#[derive(Debug, PartialEq, Eq)]
pub enum Input {
    /// The line, as it was read.
    Line(String),
    /// The line could not be read.
    Failure,
}

/// An [`Input`] with its line as a text.
pub enum InputView {
    Line(Seq<char>),
    Failure,
}

impl View for Input {
    type V = InputView;

    open spec fn view(&self) -> InputView {
        match self {
            Input::Line(line) => InputView::Line(line@),
            Input::Failure => InputView::Failure,
        }
    }
}

/// What a step answers: the lines to show, and the error if the input
/// was turned down.
#[derive(Debug, PartialEq, Eq)]
pub struct Reply {
    pub lines: Vec<String>,
    pub error: Option<InputError>,
}

/// A [`Reply`] with its lines as texts.
pub struct ReplyView {
    pub lines: Seq<Seq<char>>,
    pub error: Option<InputError>,
}

impl View for Reply {
    type V = ReplyView;

    open spec fn view(&self) -> ReplyView {
        ReplyView { lines: texts(self.lines@), error: self.error }
    }
}

/// A session as contracts see it: the roster and the phase.
pub struct SessionView {
    pub roster: RosterView,
    pub phase: Phase,
}

/// A session: the roster and what is awaited next.
pub struct Session {
    roster: Roster,
    phase: Phase,
}

impl View for Session {
    type V = SessionView;

    closed spec fn view(&self) -> SessionView {
        SessionView { roster: self.roster@, phase: self.phase }
    }
}

/// What the user is told where no menu line came at all.
pub open spec fn missing_choice_notice() -> Seq<char> {
    "Please choose an option."@
}

/// What asks for the add-sentence.
pub open spec fn command_prompt() -> Seq<Seq<char>> {
    seq![blank_line(), "Please enter the command:"@]
}

/// What asks for the department's name.
pub open spec fn department_prompt() -> Seq<Seq<char>> {
    seq!["Please enter the department name:"@]
}

/// What is shown when the user leaves.
pub open spec fn farewell() -> Seq<Seq<char>> {
    seq!["Exiting..."@]
}

/// The answer to an input that was turned down: the session prompts
/// again, the roster is as it was, and the notice is shown above the
/// menu.
pub open spec fn rejected(
    before: SessionView,
    after: SessionView,
    reply: ReplyView,
    error: InputError,
    notice: Seq<char>,
) -> bool {
    &&& after.phase == Phase::Prompting
    &&& after.roster == before.roster
    &&& reply.error == Some(error)
    &&& reply.lines == seq![notice] + menu_text()
}

/// The answer to a menu line. A line without characters and a line that
/// selects no option are turned down. Options 1 and 2 ask for one more
/// line; option 3 lists the whole roster and prompts again; option 4
/// terminates the session, and no menu follows the farewell.
pub open spec fn prompting_step(
    before: SessionView,
    line: Seq<char>,
    after: SessionView,
    reply: ReplyView,
) -> bool {
    if line.len() == 0 {
        rejected(before, after, reply, InputError::InvalidMenuChoice, missing_choice_notice())
    } else {
        match menu_choice(line) {
            Err(error) => rejected(before, after, reply, error, invalid_choice_notice()),
            Ok(MenuOption::AddMember) => {
                &&& after.phase == Phase::DispatchingAdd
                &&& after.roster == before.roster
                &&& reply.error is None
                &&& reply.lines == command_prompt()
            },
            Ok(MenuOption::ListDepartment) => {
                &&& after.phase == Phase::DispatchingList
                &&& after.roster == before.roster
                &&& reply.error is None
                &&& reply.lines == department_prompt()
            },
            Ok(MenuOption::ListAll) => {
                &&& after.phase == Phase::Prompting
                &&& after.roster == before.roster
                &&& reply.error is None
                &&& exists|pairs: Seq<PairView>|
                    is_listing(before.roster, pairs) && reply.lines == #[trigger] listing_text(
                        pairs,
                    ) + menu_text()
            },
            Ok(MenuOption::Exit) => {
                &&& after.phase == Phase::Terminated
                &&& after.roster == before.roster
                &&& reply.error is None
                &&& reply.lines == farewell()
            },
        }
    }
}

/// The answer to an add-sentence: the person is added and a blank line
/// is shown above the menu, or the sentence is turned down.
pub open spec fn adding_step(
    before: SessionView,
    line: Seq<char>,
    after: SessionView,
    reply: ReplyView,
) -> bool {
    match add_command(line) {
        CommandView::AddMember { department, name } => {
            &&& after.phase == Phase::Prompting
            &&& after.roster == added(before.roster, department, name)
            &&& reply.error is None
            &&& reply.lines == seq![blank_line()] + menu_text()
        },
        _ => rejected(
            before,
            after,
            reply,
            InputError::MalformedAddCommand,
            malformed_command_notice(),
        ),
    }
}

/// The answer to a department line: the members of the department, or
/// the word that nobody was found, above the menu; a blank line is turned
/// down.
pub open spec fn listing_step(
    before: SessionView,
    line: Seq<char>,
    after: SessionView,
    reply: ReplyView,
) -> bool {
    match department_query(line) {
        CommandView::ListDepartment { department } => {
            &&& after.phase == Phase::Prompting
            &&& after.roster == before.roster
            &&& reply.error is None
            &&& reply.lines == (if before.roster.dom().contains(lowercase(department)) {
                members_text(before.roster[lowercase(department)])
            } else {
                nobody_text()
            }) + menu_text()
        },
        _ => rejected(
            before,
            after,
            reply,
            InputError::EmptyDepartmentQuery,
            empty_department_notice(),
        ),
    }
}

/// What carrying out a command does. A terminated session stays as it is
/// and shows nothing. Otherwise leaving terminates the session after the
/// farewell, and every other command leads back to the menu, which is
/// shown below what the command has to show: a blank line after an added
/// person, the members of a department or the word that nobody was found,
/// the whole roster, or the reason for which the command is invalid. Only
/// adding a person changes the roster.
pub open spec fn executed(
    before: SessionView,
    command: CommandView,
    after: SessionView,
    lines: Seq<Seq<char>>,
) -> bool {
    if before.phase == Phase::Terminated {
        &&& after.phase == Phase::Terminated
        &&& after.roster == before.roster
        &&& lines == Seq::<Seq<char>>::empty()
    } else {
        match command {
            CommandView::AddMember { department, name } => {
                &&& after.phase == Phase::Prompting
                &&& after.roster == added(before.roster, department, name)
                &&& lines == seq![blank_line()] + menu_text()
            },
            CommandView::ListDepartment { department } => {
                &&& after.phase == Phase::Prompting
                &&& after.roster == before.roster
                &&& lines == (if before.roster.dom().contains(lowercase(department)) {
                    members_text(before.roster[lowercase(department)])
                } else {
                    nobody_text()
                }) + menu_text()
            },
            CommandView::ListAll => {
                &&& after.phase == Phase::Prompting
                &&& after.roster == before.roster
                &&& exists|pairs: Seq<PairView>|
                    is_listing(before.roster, pairs) && lines == #[trigger] listing_text(pairs)
                        + menu_text()
            },
            CommandView::Exit => {
                &&& after.phase == Phase::Terminated
                &&& after.roster == before.roster
                &&& lines == farewell()
            },
            CommandView::Invalid { reason } => {
                &&& after.phase == Phase::Prompting
                &&& after.roster == before.roster
                &&& lines == seq![reason] + menu_text()
            },
        }
    }
}

/// What a step may do. A terminated session stays as it is and shows
/// nothing. A line that could not be read is answered like one that
/// could not be understood, but for the error, which says that reading
/// failed. Every other input is answered as the phase says.
pub open spec fn step_relation(
    before: SessionView,
    input: InputView,
    after: SessionView,
    reply: ReplyView,
) -> bool {
    match (before.phase, input) {
        (Phase::Terminated, _) => {
            &&& after.phase == Phase::Terminated
            &&& after.roster == before.roster
            &&& reply.error is None
            &&& reply.lines == Seq::<Seq<char>>::empty()
        },
        (Phase::Prompting, InputView::Line(line)) => prompting_step(before, line, after, reply),
        (Phase::DispatchingAdd, InputView::Line(line)) => adding_step(before, line, after, reply),
        (Phase::DispatchingList, InputView::Line(line)) => listing_step(
            before,
            line,
            after,
            reply,
        ),
        (Phase::Prompting, InputView::Failure) => rejected(
            before,
            after,
            reply,
            InputError::InputReadFailure,
            invalid_choice_notice(),
        ),
        (Phase::DispatchingAdd, InputView::Failure) => rejected(
            before,
            after,
            reply,
            InputError::InputReadFailure,
            malformed_command_notice(),
        ),
        (Phase::DispatchingList, InputView::Failure) => rejected(
            before,
            after,
            reply,
            InputError::InputReadFailure,
            empty_department_notice(),
        ),
    }
}

/// Whether a text may stand in the roster of a session: it was made from
/// a word of an add-sentence, one that is not empty, holds no whitespace
/// and is neither `add` nor `to`, by putting it in lowercase when the
/// sentence was read and again when the person was added.
pub open spec fn is_entry(s: Seq<char>) -> bool {
    exists|word: Seq<char>|
        is_word(word) && !is_keyword(word) && s == lowercase(#[trigger] lowercase(word))
}

/// What holds of the roster of every session: each department and each
/// member is an entry, and no department is without members.
pub open spec fn sound(roster: RosterView) -> bool {
    forall|key: Seq<char>| #[trigger]
        roster.dom().contains(key) ==> {
            &&& is_entry(key)
            &&& roster[key].len() > 0
            &&& forall|i: int| 0 <= i < roster[key].len() ==> is_entry(#[trigger] roster[key][i])
        }
}

/// The roster of a new session is sound, and a step keeps it so.
pub proof fn law_roster_stays_sound(
    before: SessionView,
    input: InputView,
    after: SessionView,
    reply: ReplyView,
)
    requires
        step_relation(before, input, after, reply),
        sound(before.roster),
    ensures
        sound(Map::<Seq<char>, Seq<Seq<char>>>::empty()),
        sound(after.roster),
{
    if after.roster != before.roster {
        let line = input->Line_0;
        let command = add_command(line);
        let department = command->AddMember_department;
        let name = command->name;
        law_add_command_names(line);
        let key = lowercase(department);
        assert(is_entry(key));
        assert(is_entry(lowercase(name)));
        assert forall|k: Seq<char>| #[trigger] after.roster.dom().contains(k) implies {
            &&& is_entry(k)
            &&& after.roster[k].len() > 0
            &&& forall|i: int|
                0 <= i < after.roster[k].len() ==> is_entry(#[trigger] after.roster[k][i])
        } by {
            if k == key {
                assert forall|i: int| 0 <= i < after.roster[k].len() implies is_entry(
                    #[trigger] after.roster[k][i],
                ) by {
                    if i < members_of(before.roster, key).len() {
                        assert(before.roster.dom().contains(key));
                        assert(after.roster[k][i] == before.roster[key][i]);
                    }
                }
            } else {
                assert(before.roster.dom().contains(k));
                assert(after.roster[k] == before.roster[k]);
            }
        }
    }
}

/// An input that is turned down changes nothing in the roster and leads
/// back to the menu.
pub proof fn law_errors_change_nothing(
    before: SessionView,
    input: InputView,
    after: SessionView,
    reply: ReplyView,
)
    requires
        step_relation(before, input, after, reply),
        reply.error is Some,
    ensures
        after.roster == before.roster,
        after.phase == Phase::Prompting,
        reply.lines.len() == 1 + menu_text().len(),
        reply.lines.skip(1) == menu_text(),
{
    assert(reply.lines.skip(1) =~= menu_text());
}

/// The roster changes only where an add-sentence is answered, and then by
/// one person.
pub proof fn law_only_adding_changes_the_roster(
    before: SessionView,
    input: InputView,
    after: SessionView,
    reply: ReplyView,
)
    requires
        step_relation(before, input, after, reply),
        after.roster != before.roster,
    ensures
        before.phase == Phase::DispatchingAdd,
        input is Line,
        add_command(input->Line_0) is AddMember,
        after.roster == added(
            before.roster,
            add_command(input->Line_0)->AddMember_department,
            add_command(input->Line_0)->name,
        ),
{
}

/// A session terminates in one way only: by option 4 at the menu. No
/// error ends it.
pub proof fn law_only_exit_terminates(
    before: SessionView,
    input: InputView,
    after: SessionView,
    reply: ReplyView,
)
    requires
        step_relation(before, input, after, reply),
        before.phase != Phase::Terminated,
        after.phase == Phase::Terminated,
    ensures
        before.phase == Phase::Prompting,
        input is Line,
        menu_choice(input->Line_0) == Ok::<MenuOption, InputError>(MenuOption::Exit),
        reply.error is None,
        reply.lines == farewell(),
{
}

/// The lines of a notice above the menu.
fn notice_and_menu(notice: &str) -> (lines: Vec<String>)
    ensures
        texts(lines@) == seq![notice@] + menu_text(),
{
    let mut lines: Vec<String> = Vec::new();
    lines.push(String::from_str(notice));
    proof {
        assert(texts(lines@) =~= seq![notice@]);
    }
    append_lines(&mut lines, menu());
    lines
}

/// The invalid command with the given reason.
fn invalid(notice: &str) -> (command: ParsedCommand)
    ensures
        command@ == (CommandView::Invalid { reason: notice@ }),
{
    ParsedCommand::Invalid { reason: String::from_str(notice) }
}

impl Session {
    /// A session with an empty roster that waits for a menu choice.
    pub fn new() -> (session: Session)
        ensures
            session@.phase == Phase::Prompting,
            session@.roster == Map::<Seq<char>, Seq<Seq<char>>>::empty(),
    {
        Session { roster: Roster::new(), phase: Phase::Prompting }
    }

    /// What the session is waiting for.
    pub fn phase(&self) -> (phase: Phase)
        ensures
            phase == self@.phase,
    {
        self.phase
    }

    /// Whether the session has terminated.
    pub fn is_terminated(&self) -> (done: bool)
        ensures
            done == (self@.phase == Phase::Terminated),
    {
        match self.phase {
            Phase::Terminated => true,
            _ => false,
        }
    }

    /// The roster.
    pub fn roster(&self) -> (roster: &Roster)
        ensures
            roster@ == self@.roster,
    {
        &self.roster
    }

    /// Carries out a command and gives the lines to show.
    pub fn execute(&mut self, command: &ParsedCommand) -> (lines: Vec<String>)
        ensures
            executed(old(self)@, command@, final(self)@, texts(lines@)),
    {
        match self.phase {
            Phase::Terminated => {
                let lines: Vec<String> = Vec::new();
                proof {
                    assert(texts(lines@) =~= Seq::<Seq<char>>::empty());
                }
                return lines;
            },
            _ => {},
        }
        self.phase = Phase::Prompting;
        match command {
            ParsedCommand::AddMember { department, name } => {
                self.roster.add(department.as_str(), name.as_str());
                let mut lines: Vec<String> = Vec::new();
                lines.push(String::new());
                proof {
                    assert(texts(lines@) =~= seq![blank_line()]);
                }
                append_lines(&mut lines, menu());
                lines
            },
            ParsedCommand::ListDepartment { department } => {
                let mut lines = match self.roster.list_department(department.as_str()) {
                    Some(members) => members_report(&members),
                    None => nobody_report(),
                };
                append_lines(&mut lines, menu());
                lines
            },
            ParsedCommand::ListAll => {
                let pairs = self.roster.list_all();
                let mut lines = listing_report(&pairs);
                append_lines(&mut lines, menu());
                proof {
                    assert(is_listing(self@.roster, pair_texts(pairs@)));
                    assert(texts(lines@) == listing_text(pair_texts(pairs@)) + menu_text());
                }
                lines
            },
            ParsedCommand::Exit => {
                self.phase = Phase::Terminated;
                let mut lines: Vec<String> = Vec::new();
                lines.push(String::from_str("Exiting..."));
                proof {
                    assert(texts(lines@) =~= farewell());
                }
                lines
            },
            ParsedCommand::Invalid { reason } => notice_and_menu(reason.as_str()),
        }
    }

    /// Takes one input and answers it.
    pub fn step(&mut self, input: &Input) -> (reply: Reply)
        ensures
            step_relation(old(self)@, input@, final(self)@, reply@),
    {
        match self.phase {
            Phase::Terminated => {
                let lines: Vec<String> = Vec::new();
                proof {
                    assert(texts(lines@) =~= Seq::<Seq<char>>::empty());
                }
                Reply { lines, error: None }
            },
            Phase::Prompting => match input {
                Input::Failure => Reply {
                    lines: self.execute(&invalid("Please choose a valid option.")),
                    error: Some(InputError::InputReadFailure),
                },
                Input::Line(line) => self.on_choice(line.as_str()),
            },
            Phase::DispatchingAdd => match input {
                Input::Failure => Reply {
                    lines: self.execute(
                        &invalid("No valid department or name found in the command!"),
                    ),
                    error: Some(InputError::InputReadFailure),
                },
                Input::Line(line) => self.on_command(line.as_str()),
            },
            Phase::DispatchingList => match input {
                Input::Failure => Reply {
                    lines: self.execute(&invalid("Please enter the department name.")),
                    error: Some(InputError::InputReadFailure),
                },
                Input::Line(line) => self.on_department(line.as_str()),
            },
        }
    }

    /// Answers a menu line.
    fn on_choice(&mut self, line: &str) -> (reply: Reply)
        requires
            old(self)@.phase == Phase::Prompting,
        ensures
            prompting_step(old(self)@, line@, final(self)@, reply@),
    {
        if line.is_empty() {
            return Reply {
                lines: self.execute(&invalid("Please choose an option.")),
                error: Some(InputError::InvalidMenuChoice),
            };
        }
        match parse_menu_option(line) {
            Err(error) => Reply {
                lines: self.execute(&invalid("Please choose a valid option.")),
                error: Some(error),
            },
            Ok(MenuOption::AddMember) => {
                self.phase = Phase::DispatchingAdd;
                let mut lines: Vec<String> = Vec::new();
                lines.push(String::new());
                lines.push(String::from_str("Please enter the command:"));
                proof {
                    assert(texts(lines@) =~= command_prompt());
                }
                Reply { lines, error: None }
            },
            Ok(MenuOption::ListDepartment) => {
                self.phase = Phase::DispatchingList;
                let mut lines: Vec<String> = Vec::new();
                lines.push(String::from_str("Please enter the department name:"));
                proof {
                    assert(texts(lines@) =~= department_prompt());
                }
                Reply { lines, error: None }
            },
            Ok(MenuOption::ListAll) => Reply {
                lines: self.execute(&ParsedCommand::ListAll),
                error: None,
            },
            Ok(MenuOption::Exit) => Reply { lines: self.execute(&ParsedCommand::Exit), error: None },
        }
    }

    /// Answers an add-sentence.
    fn on_command(&mut self, line: &str) -> (reply: Reply)
        requires
            old(self)@.phase == Phase::DispatchingAdd,
        ensures
            adding_step(old(self)@, line@, final(self)@, reply@),
    {
        let command = parse_add_command(line);
        let error = match &command {
            ParsedCommand::AddMember { .. } => None,
            _ => Some(InputError::MalformedAddCommand),
        };
        Reply { lines: self.execute(&command), error }
    }

    /// Answers a department line.
    fn on_department(&mut self, line: &str) -> (reply: Reply)
        requires
            old(self)@.phase == Phase::DispatchingList,
        ensures
            listing_step(old(self)@, line@, final(self)@, reply@),
    {
        let command = parse_department_query(line);
        let error = match &command {
            ParsedCommand::ListDepartment { .. } => None,
            _ => Some(InputError::EmptyDepartmentQuery),
        };
        Reply { lines: self.execute(&command), error }
    }
}

} // verus!
