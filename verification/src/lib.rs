//! Path matching and line-oriented content search: the engine behind a
//! `find`-like and a `grep`-like utility.
//!
//! The library never touches the file system. Callers list directories and
//! read files, and hand in what they found as plain values.

pub mod base;
pub mod clu_errors;
pub mod pattern;
pub mod text;
pub mod find;
pub mod grep;

use crate::clu_errors::{text_result, CluErrors, ErrorModel};
use crate::find::Find;
use crate::grep::model::FileInput;
use crate::grep::Grep;
use crate::text::texts;
use vstd::prelude::*;

verus! {

/// The utilities on offer.
pub enum Utility {
    /// Search the content of files.
    Grep(Grep),
    /// Search for files.
    Find(Find),
}

impl Utility {
    /// What the utility gives on what was gathered for it: a find filters
    /// the expanded paths `parsed`, a search looks into the files read.
    pub open spec fn output(self, parsed: Seq<Seq<char>>, files: Seq<FileInput>) -> Result<
        Seq<char>,
        ErrorModel,
    > {
        match self {
            Utility::Grep(grep) => grep.execute_output(files),
            Utility::Find(find) => find.execute_output(parsed),
        }
    }

    /// Runs the utility: a find on the expanded paths `parsed`, a search on `files`.
    pub fn execute(self, parsed: Vec<String>, files: Vec<FileInput>) -> (out: Result<
        String,
        CluErrors,
    >)
        ensures
            text_result(out) == self.output(texts(parsed@), files@),
    {
        match self {
            Utility::Grep(grep) => grep.execute(files),
            Utility::Find(find) => find.execute(parsed),
        }
    }
}

/// A parsed command line.
pub struct Clu {
    /// The utility that was asked for, if any.
    pub utility: Option<Utility>,
}

impl Clu {
    /// Runs the utility that was asked for: a find on the expanded paths
    /// `parsed`, a search on `files`. Without a utility the command is missing.
    pub fn run(self, parsed: Vec<String>, files: Vec<FileInput>) -> (out: Result<String, CluErrors>)
        ensures
            text_result(out) == match self.utility {
                Some(utility) => utility.output(texts(parsed@), files@),
                None => Err::<Seq<char>, ErrorModel>(ErrorModel::MissingCommand),
            },
    {
        match self.utility {
            Some(utility) => utility.execute(parsed, files),
            None => Err(CluErrors::MissingCommand),
        }
    }
}

} // verus!
