//! The commands of the program, and where they stand among its arguments.

use crate::text::{contains_text, has_text, optional_text, same_text, texts};
use vstd::prelude::*;

verus! {

/// What is printed for help.
pub const HELP_TEXT: &'static str = "Help text here";

/// What is printed where a command is missing.
pub const NO_ARG_TEXT: &'static str = "Expected an argument";

/// The commands there are.
pub const EXPECTED_OPTS: &'static str = "list, add, help";

/// A command.
#[derive(Debug)]
pub enum Command {
    List,
    Add,
    Help,
    Invalid(String),
}

/// What a listing is limited to.
#[derive(Debug)]
pub enum Flag {
    Global,
    Token(String),
    All,
    Mine,
    Repo(String),
}

/// A command as plain values.
pub enum CommandView {
    List,
    Add,
    Help,
    Invalid(Seq<char>),
}

impl View for Command {
    type V = CommandView;

    open spec fn view(&self) -> CommandView {
        match self {
            Command::List => CommandView::List,
            Command::Add => CommandView::Add,
            Command::Help => CommandView::Help,
            Command::Invalid(word) => CommandView::Invalid(word@),
        }
    }
}

/// The command that a word names; any other word is an invalid command.
pub open spec fn command_named(word: Seq<char>) -> CommandView {
    if word == "list"@ || word == "ls"@ {
        CommandView::List
    } else if word == "add"@ {
        CommandView::Add
    } else if word == "help"@ {
        CommandView::Help
    } else {
        CommandView::Invalid(word)
    }
}

/// An optional command as plain values.
pub open spec fn optional_command(command: Option<Command>) -> Option<CommandView> {
    match command {
        Some(c) => Some(c@),
        None => None,
    }
}

/// The argument behind the first one that holds `key`, looked for from the
/// place `from` on.
pub open spec fn value_behind(args: Seq<Seq<char>>, key: Seq<char>, from: int) -> Option<
    Seq<char>,
>
    decreases args.len() - from,
{
    if from < 0 || from >= args.len() {
        None
    } else if contains_text(args[from], key) {
        if from + 1 < args.len() {
            Some(args[from + 1])
        } else {
            None
        }
    } else {
        value_behind(args, key, from + 1)
    }
}

/// What is said of a word that names no command.
pub open spec fn invalid_arg(arg: Seq<char>) -> Seq<char> {
    "Invalid command '"@ + arg + "', expected one of: "@ + EXPECTED_OPTS@
}

/// Whether one of the arguments is `key`.
pub fn cmd_has(args: &Vec<String>, key: &str) -> (found: bool)
    ensures
        found == texts(args@).contains(key@),
{
    let mut i: usize = 0;
    while i < args.len()
        invariant
            i <= args.len(),
            forall|k: int| 0 <= k < i ==> texts(args@)[k] != key@,
        decreases args.len() - i,
    {
        if same_text(args[i].as_str(), key) {
            assert(texts(args@)[i as int] == key@);
            return true;
        }
        i += 1;
    }
    false
}

/// The argument behind the first one that holds `key`.
pub fn cmd_read(args: &Vec<String>, key: &str) -> (value: Option<String>)
    ensures
        optional_text(value) == value_behind(texts(args@), key@, 0),
{
    let mut i: usize = 0;
    while i < args.len()
        invariant
            i <= args.len(),
            value_behind(texts(args@), key@, 0) == value_behind(texts(args@), key@, i as int),
        decreases args.len() - i,
    {
        proof {
            assert(texts(args@)[i as int] == args@[i as int]@);
        }
        if has_text(args[i].as_str(), key) {
            if i + 1 < args.len() {
                proof {
                    assert(texts(args@)[i + 1] == args@[i + 1]@);
                }
                return Some(args[i + 1].clone());
            } else {
                return None;
            }
        }
        i += 1;
    }
    None
}

/// What is said of a word that names no command.
pub fn invalid_arg_text(arg: &str) -> (message: String)
    ensures
        message@ == invalid_arg(arg@),
{
    let mut message = String::from_str("Invalid command '");
    message.append(arg);
    message.append("', expected one of: ");
    message.append(EXPECTED_OPTS);
    message
}

impl Command {
    /// The command that `value` names. Any word names one: a word that is none
    /// of the commands names an invalid command.
    pub fn from(value: &str) -> (command: Option<Command>)
        ensures
            optional_command(command) == Some(command_named(value@)),
    {
        if same_text(value, "list") || same_text(value, "ls") {
            Some(Command::List)
        } else if same_text(value, "add") {
            Some(Command::Add)
        } else if same_text(value, "help") {
            Some(Command::Help)
        } else {
            Some(Command::Invalid(String::from_str(value)))
        }
    }

    /// The command among the arguments of the program: the one that the
    /// argument behind the program's name names, if there is such an argument.
    pub fn parse(args: &Vec<String>) -> (command: Option<Command>)
        ensures
            optional_command(command) == if args@.len() > 1 {
                Some(command_named(args@[1]@))
            } else {
                None
            },
    {
        if args.len() > 1 {
            Command::from(args[1].as_str())
        } else {
            None
        }
    }
}

} // verus!
