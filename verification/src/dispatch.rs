//! From a line of input to what the host has to do.

use vstd::prelude::*;
use vstd::slice::slice_subrange;
use crate::builtin::{builtin_named, parse, Builtin};
use crate::locate::{find_path, resolved, Directory};
use crate::text::{is_space, strip_first};
use crate::words::{
    copy_words, join_words, joined, lemma_no_tokens_iff_blank, tokenize, tokens, words_of,
};

verus! {

/// What the host knows of the process environment when a line is dispatched.
#[derive(Clone, Debug)]
pub struct Environment {
    /// The directories of the search path in order, or `None` where the
    /// search path is unset.
    pub search_path: Option<Vec<Directory>>,
    /// The home directory, or `None` where it is unset.
    pub home: Option<String>,
}

/// What the host does for one line of input.
#[derive(Clone, Debug, PartialEq, Eq)]
pub enum Action {
    /// Nothing: the line held no word.
    Nothing,
    /// Write the text to standard output as it stands.
    Print(String),
    /// Write the working directory and a newline to standard output.
    PrintWorkingDirectory,
    /// Make `target` the working directory; where that fails, write
    /// `on_failure` to standard output.
    ChangeDirectory { target: String, on_failure: String },
    /// Launch the program `name` with `arguments`, wait for it and relay its
    /// standard output; where it cannot be launched, write `on_failure` to
    /// standard output.
    Run { name: String, arguments: Vec<String>, on_failure: String },
    /// Stop reading input.
    Exit,
}

/// An `Action` with its texts as sequences of characters.
pub enum ActionView {
    Nothing,
    Print(Seq<char>),
    PrintWorkingDirectory,
    ChangeDirectory { target: Seq<char>, on_failure: Seq<char> },
    Run { name: Seq<char>, arguments: Seq<Seq<char>>, on_failure: Seq<char> },
    Exit,
}

impl View for Action {
    type V = ActionView;

    open spec fn view(&self) -> ActionView {
        match *self {
            Action::Nothing => ActionView::Nothing,
            Action::Print(text) => ActionView::Print(text@),
            Action::PrintWorkingDirectory => ActionView::PrintWorkingDirectory,
            Action::ChangeDirectory { target, on_failure } => ActionView::ChangeDirectory {
                target: target@,
                on_failure: on_failure@,
            },
            Action::Run { name, arguments, on_failure } => ActionView::Run {
                name: name@,
                arguments: words_of(arguments@),
                on_failure: on_failure@,
            },
            Action::Exit => ActionView::Exit,
        }
    }
}

/// What `echo` writes: its arguments with single spaces between them, and a
/// newline.
pub open spec fn echo_text(arguments: Seq<Seq<char>>) -> Seq<char> {
    joined(arguments, ' ') + "\n"@
}

/// The output of the `echo` builtin.
pub fn echo(arguments: &[String]) -> (text: String)
    ensures
        text@ == echo_text(words_of(arguments@)),
{
    let mut text = join_words(arguments);
    text.append("\n");
    text
}

/// What `pwd` writes for a working directory: its path and a newline.
pub fn pwd(working_directory: &str) -> (text: String)
    ensures
        text@ == working_directory@ + "\n"@,
{
    let mut text = String::from_str(working_directory);
    text.append("\n");
    text
}

/// What is written for a command that is neither a builtin nor on the search
/// path.
pub open spec fn not_found_text(command: Seq<char>) -> Seq<char> {
    command + ": command not found\n"@
}

/// The report for a command that is neither a builtin nor on the search path.
pub fn not_found(command: &str) -> (text: String)
    ensures
        text@ == not_found_text(command@),
{
    let mut text = String::from_str(command);
    text.append(": command not found\n");
    text
}

/// What is written for a program that was found on the search path and
/// could not be launched.
pub open spec fn launch_failure_text(command: Seq<char>) -> Seq<char> {
    command + ": cannot execute\n"@
}

/// The report for a program that could not be launched.
pub fn launch_failure(command: &str) -> (text: String)
    ensures
        text@ == launch_failure_text(command@),
{
    let mut text = String::from_str(command);
    text.append(": cannot execute\n");
    text
}

/// What `type` writes for one name. A builtin is reported as such whatever
/// the search path holds; any other name by the path it resolves to, or as
/// not found.
pub open spec fn type_line(name: Seq<char>, search_path: Option<Vec<Directory>>) -> Seq<char> {
    if builtin_named(name) is Some {
        name + " is a shell builtin\n"@
    } else {
        match resolved(name, search_path) {
            Some(path) => name + " is "@ + path + "\n"@,
            None => name + ": not found\n"@,
        }
    }
}

/// What `type` writes for its arguments: one line for each, in their order.
pub open spec fn type_text(names: Seq<Seq<char>>, search_path: Option<Vec<Directory>>) -> Seq<
    char,
>
    decreases names.len(),
{
    if names.len() == 0 {
        Seq::empty()
    } else {
        type_text(names.drop_last(), search_path) + type_line(names.last(), search_path)
    }
}

/// The line that `type` writes for one name.
pub fn type_one(name: &str, search_path: &Option<Vec<Directory>>) -> (line: String)
    ensures
        line@ == type_line(name@, *search_path),
{
    let mut line = String::from_str(name);
    if parse(name).is_some() {
        line.append(" is a shell builtin\n");
        return line;
    }
    match find_path(name, search_path) {
        Some(path) => {
            line.append(" is ");
            line.append(path.as_str());
            line.append("\n");
        },
        None => {
            line.append(": not found\n");
        },
    }
    line
}

/// The output of the `type` builtin.
pub fn type_(commands: &[String], search_path: &Option<Vec<Directory>>) -> (text: String)
    ensures
        text@ == type_text(words_of(commands@), *search_path),
{
    let mut text = String::new();
    let mut i: usize = 0;
    while i < commands.len()
        invariant
            i <= commands.len(),
            text@ == type_text(words_of(commands@).take(i as int), *search_path),
        decreases commands.len() - i,
    {
        proof {
            let next = words_of(commands@).take(i + 1);
            assert(next.drop_last() =~= words_of(commands@).take(i as int));
            assert(next.last() == commands@[i as int]@);
        }
        let line = type_one(commands[i].as_str(), search_path);
        text.append(line.as_str());
        i += 1;
    }
    assert(words_of(commands@).take(i as int) =~= words_of(commands@));
    text
}

/// What is written when the working directory cannot be changed to `target`.
pub open spec fn cd_failure_text(target: Seq<char>) -> Seq<char> {
    "cd: "@ + target + ": No such file or directory\n"@
}

/// What `cd` asks for.
///
/// With more than one argument, or with none, it only reports the misuse.
/// An argument that starts with `~` has that character replaced by the home
/// directory; where the home directory is unset the change fails and is
/// reported for the argument as it was typed. Any other argument is taken as
/// it stands.
pub open spec fn cd_plan(arguments: Seq<Seq<char>>, home: Option<String>) -> ActionView {
    if arguments.len() > 1 {
        ActionView::Print("cd: too many arguments\n"@)
    } else if arguments.len() == 0 {
        ActionView::Print("cd: missing argument\n"@)
    } else {
        let typed = arguments[0];
        if typed.len() > 0 && typed[0] == '~' {
            match home {
                Some(home) => {
                    let target = home@ + typed.drop_first();
                    ActionView::ChangeDirectory { target, on_failure: cd_failure_text(target) }
                },
                None => ActionView::Print(cd_failure_text(typed)),
            }
        } else {
            ActionView::ChangeDirectory { target: typed, on_failure: cd_failure_text(typed) }
        }
    }
}

/// The report that the working directory cannot be changed to `target`.
pub fn cd_failure(target: &str) -> (text: String)
    ensures
        text@ == cd_failure_text(target@),
{
    let mut text = String::from_str("cd: ");
    text.append(target);
    text.append(": No such file or directory\n");
    text
}

/// The `cd` builtin: decides which directory to change to, and what to
/// report if the change fails.
pub fn cd(arguments: &[String], home: &Option<String>) -> (action: Action)
    ensures
        action@ == cd_plan(words_of(arguments@), *home),
{
    if arguments.len() > 1 {
        return Action::Print(String::from_str("cd: too many arguments\n"));
    }
    if arguments.len() == 0 {
        return Action::Print(String::from_str("cd: missing argument\n"));
    }
    let typed = arguments[0].as_str();
    assert(words_of(arguments@)[0] == typed@);
    let target = match strip_first(typed, '~') {
        Some(rest) => match home {
            Some(home) => {
                let mut target = home.clone();
                target.append(rest.as_str());
                target
            },
            None => {
                return Action::Print(cd_failure(typed));
            },
        },
        None => String::from_str(typed),
    };
    let on_failure = cd_failure(target.as_str());
    Action::ChangeDirectory { target, on_failure }
}

/// What a line that consists of `words` asks for.
///
/// The first word is the command, the others are its arguments. A builtin
/// name always means the builtin; any other command is run if the search
/// path resolves it, under the name as it was typed, and reported as not
/// found if not.
pub open spec fn planned(words: Seq<Seq<char>>, environment: Environment) -> ActionView {
    if words.len() == 0 {
        ActionView::Nothing
    } else {
        let command = words[0];
        let arguments = words.drop_first();
        match builtin_named(command) {
            Some(Builtin::Exit) => ActionView::Exit,
            Some(Builtin::Echo) => ActionView::Print(echo_text(arguments)),
            Some(Builtin::Pwd) => ActionView::PrintWorkingDirectory,
            Some(Builtin::Cd) => cd_plan(arguments, environment.home),
            Some(Builtin::Type) => ActionView::Print(
                type_text(arguments, environment.search_path),
            ),
            None => match resolved(command, environment.search_path) {
                Some(_) => ActionView::Run {
                    name: command,
                    arguments,
                    on_failure: launch_failure_text(command),
                },
                None => ActionView::Print(not_found_text(command)),
            },
        }
    }
}

/// Whether what a line asks for can depend on the search path: it can for
/// `type` and for any command that is no builtin.
pub open spec fn consults_search_path(words: Seq<Seq<char>>) -> bool {
    words.len() > 0 && (builtin_named(words[0]) is None || builtin_named(words[0]) == Some(
        Builtin::Type,
    ))
}

/// Decides `consults_search_path`, so that a host can leave the search path
/// unread for the lines that do not need it.
pub fn needs_search_path(words: &[String]) -> (needed: bool)
    ensures
        needed == consults_search_path(words_of(words@)),
{
    if words.len() == 0 {
        return false;
    }
    assert(words_of(words@)[0] == words@[0]@);
    match parse(words[0].as_str()) {
        None => true,
        Some(Builtin::Type) => true,
        Some(_) => false,
    }
}

/// A line asks for nothing exactly when it is empty or holds separators
/// only.
pub proof fn lemma_blank_line_asks_nothing(line: Seq<char>, environment: Environment)
    ensures
        planned(tokens(line), environment) == ActionView::Nothing <==> forall|i: int|
            0 <= i < line.len() ==> is_space(#[trigger] line[i]),
{
    lemma_no_tokens_iff_blank(line);
}

/// The five builtin names are five different words.
pub proof fn lemma_builtin_names(word: Seq<char>)
    ensures
        builtin_named(word) == Some(Builtin::Echo) <==> word == "echo"@,
        builtin_named(word) == Some(Builtin::Type) <==> word == "type"@,
        builtin_named(word) == Some(Builtin::Cd) <==> word == "cd"@,
        builtin_named(word) == Some(Builtin::Pwd) <==> word == "pwd"@,
        builtin_named(word) == Some(Builtin::Exit) <==> word == "exit"@,
{
    reveal_strlit("echo");
    reveal_strlit("type");
    reveal_strlit("cd");
    reveal_strlit("pwd");
    reveal_strlit("exit");
    assert("echo"@[1] == 'c' && "type"@[1] == 'y' && "exit"@[1] == 'x');
    assert("cd"@.len() == 2 && "pwd"@.len() == 3 && "echo"@.len() == 4);
}

/// The loop ends on `exit` and on nothing else: a line asks to stop exactly
/// when its first word is `exit`, whatever follows it and whatever the
/// environment holds.
pub proof fn lemma_exit_alone_stops(words: Seq<Seq<char>>, environment: Environment)
    ensures
        planned(words, environment) == ActionView::Exit <==> words.len() > 0 && words[0]
            == "exit"@,
{
    if words.len() > 0 {
        lemma_builtin_names(words[0]);
    }
}

/// A builtin wins over any executable of the same name. `type` reports a
/// builtin name as a builtin whatever the search path holds, and a line whose
/// command is a builtin never launches a program.
pub proof fn lemma_builtin_wins(
    name: Seq<char>,
    arguments: Seq<Seq<char>>,
    environment: Environment,
)
    requires
        builtin_named(name) is Some,
    ensures
        type_line(name, environment.search_path) == name + " is a shell builtin\n"@,
        !(planned(seq![name] + arguments, environment) is Run),
{
    assert((seq![name] + arguments)[0] == name);
}

/// A command that is neither a builtin nor on the search path is reported
/// as not found, and the loop goes on.
pub proof fn lemma_unknown_command(words: Seq<Seq<char>>, environment: Environment)
    requires
        words.len() > 0,
        builtin_named(words[0]) is None,
        resolved(words[0], environment.search_path) is None,
    ensures
        planned(words, environment) == ActionView::Print(words[0] + ": command not found\n"@),
{
}

/// Where a line does not consult the search path, what it asks for is the
/// same under any search path.
pub proof fn lemma_search_path_unused(words: Seq<Seq<char>>, a: Environment, b: Environment)
    requires
        !consults_search_path(words),
        a.home == b.home,
    ensures
        planned(words, a) == planned(words, b),
{
}

/// Decides what to do for a line that has been split into words.
pub fn dispatch(words: &[String], environment: &Environment) -> (action: Action)
    ensures
        action@ == planned(words_of(words@), *environment),
{
    if words.len() == 0 {
        return Action::Nothing;
    }
    let command = words[0].as_str();
    let arguments = slice_subrange(words, 1, words.len());
    assert(words_of(words@)[0] == command@);
    assert(words_of(arguments@) =~= words_of(words@).drop_first());
    match parse(command) {
        Some(Builtin::Exit) => Action::Exit,
        Some(Builtin::Echo) => Action::Print(echo(arguments)),
        Some(Builtin::Pwd) => Action::PrintWorkingDirectory,
        Some(Builtin::Cd) => cd(arguments, &environment.home),
        Some(Builtin::Type) => Action::Print(type_(arguments, &environment.search_path)),
        None => match find_path(command, &environment.search_path) {
            Some(_) => Action::Run {
                name: String::from_str(command),
                arguments: copy_words(arguments),
                on_failure: launch_failure(command),
            },
            None => Action::Print(not_found(command)),
        },
    }
}

/// Decides what to do for one line of input.
pub fn interpret(line: &str, environment: &Environment) -> (action: Action)
    ensures
        action@ == planned(tokens(line@), *environment),
{
    let words = tokenize(line);
    dispatch(words.as_slice(), environment)
}

} // verus!
