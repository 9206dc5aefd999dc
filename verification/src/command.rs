//! The words that name a command, and how a failure ends the program.

use crate::contact::ContactError;
use vstd::prelude::*;
use vstd::string::*;

verus! {

/// What the first word of a command line asks for.
#[derive(Debug, Clone, Copy, PartialEq, Eq)]
pub enum Command {
    Add,
    Edit,
    Search,
    ReverseSearch,
    Delete,
    Help,
    /// The word names no command.
    Unknown,
}

/// The command that a word names: its full name or one of its short forms.
pub open spec fn command_of(word: Seq<char>) -> Command {
    if word == "add"@ || word == "a"@ {
        Command::Add
    } else if word == "edit"@ || word == "e"@ {
        Command::Edit
    } else if word == "search"@ || word == "view"@ || word == "s"@ {
        Command::Search
    } else if word == "reverse-search"@ || word == "rs"@ {
        Command::ReverseSearch
    } else if word == "delete"@ {
        Command::Delete
    } else if word == "help"@ {
        Command::Help
    } else {
        Command::Unknown
    }
}

/// The exit code with which the program ends after a failure: 1 where the
/// command could not be carried out as it was given, 0 where nothing was
/// found to work on.
pub open spec fn exit_code_of(error: ContactError) -> u8 {
    match error {
        ContactError::NotFound => 0,
        ContactError::MissingArguments => 1,
        ContactError::InvalidNumber => 1,
        ContactError::TooLong => 1,
    }
}

/// Whether `word` is the text `name`.
fn is_word(word: &String, name: &str) -> (result: bool)
    ensures
        result == (word@ == name@),
{
    let name = name.to_owned();
    *word == name
}

/// Reads the word that names a command.
pub fn parse_command(word: &str) -> (result: Command)
    ensures
        result == command_of(word@),
{
    let word = word.to_owned();
    if is_word(&word, "add") || is_word(&word, "a") {
        Command::Add
    } else if is_word(&word, "edit") || is_word(&word, "e") {
        Command::Edit
    } else if is_word(&word, "search") || is_word(&word, "view") || is_word(&word, "s") {
        Command::Search
    } else if is_word(&word, "reverse-search") || is_word(&word, "rs") {
        Command::ReverseSearch
    } else if is_word(&word, "delete") {
        Command::Delete
    } else if is_word(&word, "help") {
        Command::Help
    } else {
        Command::Unknown
    }
}

/// The exit code with which the program ends after `error`.
pub fn exit_code(error: ContactError) -> (result: u8)
    ensures
        result == exit_code_of(error),
{
    match error {
        ContactError::NotFound => 0,
        ContactError::MissingArguments => 1,
        ContactError::InvalidNumber => 1,
        ContactError::TooLong => 1,
    }
}

} // verus!
