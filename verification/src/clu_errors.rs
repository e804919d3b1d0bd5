//! The error values that every operation of the library reports.

use vstd::prelude::*;
use vstd::string::*;

verus! {

/// What can go wrong while resolving paths or searching.
#[derive(Debug, Clone, PartialEq, Eq)]
pub enum CluErrors {
    /// No utility was named.
    MissingCommand,
    /// Two groups of flags that exclude each other were both used; carries the utility's name.
    InvalidCommandCombination(String),
    /// A malformed or unusable input; carries the reason.
    InputError(String),
    /// A directory could not be listed.
    UnableToReadDirectory,
    /// A well-formed request produced no output.
    NotFoundError,
    /// A pattern that is no valid regular expression; carries the pattern.
    RegexError(String),
    /// An internal failure.
    UnexpectedError,
}

/// The mathematical value of a [`CluErrors`]: the same variants over character sequences.
pub enum ErrorModel {
    MissingCommand,
    InvalidCommandCombination(Seq<char>),
    InputError(Seq<char>),
    UnableToReadDirectory,
    NotFoundError,
    RegexError(Seq<char>),
    UnexpectedError,
}

impl View for CluErrors {
    type V = ErrorModel;

    open spec fn view(&self) -> ErrorModel {
        match *self {
            CluErrors::MissingCommand => ErrorModel::MissingCommand,
            CluErrors::InvalidCommandCombination(mode) => ErrorModel::InvalidCommandCombination(
                mode@,
            ),
            CluErrors::InputError(reason) => ErrorModel::InputError(reason@),
            CluErrors::UnableToReadDirectory => ErrorModel::UnableToReadDirectory,
            CluErrors::NotFoundError => ErrorModel::NotFoundError,
            CluErrors::RegexError(regex) => ErrorModel::RegexError(regex@),
            CluErrors::UnexpectedError => ErrorModel::UnexpectedError,
        }
    }
}

/// The sentence that tells a user of the error.
pub open spec fn message_text(error: ErrorModel) -> Seq<char> {
    match error {
        ErrorModel::MissingCommand => "Missing utility command. For more information try --help."@,
        ErrorModel::InvalidCommandCombination(mode) =>
            "Introduced an invalid combination of commands in "@ + mode
                + " mode. For more information try --help."@,
        ErrorModel::InputError(reason) => "Input error. "@ + reason + "."@,
        ErrorModel::UnableToReadDirectory =>
            "We've encountered a problem reading one of the provided directories, please ensure that the path is correct and that lecture permissions are enabled."@,
        ErrorModel::NotFoundError => "The request didn't produce any output."@,
        ErrorModel::RegexError(regex) => "The introduced regex "@ + regex + " isn't valid."@,
        ErrorModel::UnexpectedError => "The execution stopped due to an unexpected error."@,
    }
}

impl CluErrors {
    /// The sentence that tells a user of the error.
    pub fn message(&self) -> (text: String)
        ensures
            text@ == message_text(self@),
    {
        match self {
            CluErrors::MissingCommand => String::from_str(
                "Missing utility command. For more information try --help.",
            ),
            CluErrors::InvalidCommandCombination(mode) => {
                let mut text = String::from_str("Introduced an invalid combination of commands in ");
                text.append(mode.as_str());
                text.append(" mode. For more information try --help.");
                text
            },
            CluErrors::InputError(reason) => {
                let mut text = String::from_str("Input error. ");
                text.append(reason.as_str());
                text.append(".");
                text
            },
            CluErrors::UnableToReadDirectory => String::from_str(
                "We've encountered a problem reading one of the provided directories, please ensure that the path is correct and that lecture permissions are enabled.",
            ),
            CluErrors::NotFoundError => String::from_str("The request didn't produce any output."),
            CluErrors::RegexError(regex) => {
                let mut text = String::from_str("The introduced regex ");
                text.append(regex.as_str());
                text.append(" isn't valid.");
                text
            },
            CluErrors::UnexpectedError => String::from_str(
                "The execution stopped due to an unexpected error.",
            ),
        }
    }
}

/// The value of a result that carries lines.
pub open spec fn lines_result(r: Result<Vec<String>, CluErrors>) -> Result<Seq<Seq<char>>, ErrorModel> {
    match r {
        Ok(lines) => Ok(lines@.map_values(|s: String| s@)),
        Err(e) => Err(e@),
    }
}

/// The value of a result that carries one text.
pub open spec fn text_result(r: Result<String, CluErrors>) -> Result<Seq<char>, ErrorModel> {
    match r {
        Ok(text) => Ok(text@),
        Err(e) => Err(e@),
    }
}

} // verus!
