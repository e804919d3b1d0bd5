//! Finding the files below a directory whose path matches an expression.

use crate::clu_errors::{lines_result, text_result, CluErrors, ErrorModel};
use crate::find::options::Options;
use crate::pattern::{build_regex, is_match, regex_build, regex_matches};
use crate::text::{join_lines, joined, starts_with_char, texts, trim_newlines, trimmed};
use regex::Regex;
use vstd::prelude::*;
use vstd::string::*;

pub mod options;

verus! {

/// A find request.
pub struct Find {
    /// The directory to start from.
    pub from: Box<String>,
    /// The expression that a path must match; without one every path does.
    pub expression: Option<Box<String>>,
    /// Match without regard to case.
    pub ignore_case: bool,
    /// Look at entries whose name starts with a dot too.
    pub hidden_items: bool,
    pub options: Options,
}

/// The regular expression that an expression stands for: one that starts with
/// `*` gets a `.` in front, any other stands for itself, and none at all
/// stands for `.*`.
pub open spec fn name_source(expression: Option<Box<String>>) -> Seq<char> {
    match expression {
        Some(given) => if given@.len() > 0 && given@[0] == '*' {
            "."@ + given@
        } else {
            given@
        },
        None => ".*"@,
    }
}

/// Those among the first `upto` of `items` that `reg` matches, in their order.
pub open spec fn kept(reg: Regex, items: Seq<Seq<char>>, upto: int) -> Seq<Seq<char>>
    decreases upto,
{
    if upto <= 0 {
        Seq::empty()
    } else if regex_matches(reg, items[upto - 1]) {
        kept(reg, items, upto - 1).push(items[upto - 1])
    } else {
        kept(reg, items, upto - 1)
    }
}

impl Find {
    /// The paths among `parsed` that the expression matches, or a regex error
    /// that carries the expression where it does not compile.
    pub open spec fn filtered(&self, parsed: Seq<Seq<char>>) -> Result<Seq<Seq<char>>, ErrorModel> {
        match regex_build(name_source(self.expression), self.ignore_case) {
            None => Err(ErrorModel::RegexError(name_source(self.expression))),
            Some(reg) => Ok(kept(reg, parsed, parsed.len() as int)),
        }
    }

    /// Keeps the paths that the expression matches.
    pub fn filter_by_name(&self, parsed: Vec<String>) -> (out: Result<Vec<String>, CluErrors>)
        ensures
            lines_result(out) == self.filtered(texts(parsed@)),
    {
        let expression = match &self.expression {
            Some(given) => {
                if starts_with_char(given.as_str(), '*') {
                    let mut source = String::from_str(".");
                    source.append(given.as_str());
                    source
                } else {
                    (**given).clone()
                }
            },
            None => String::from_str(".*"),
        };
        assert(expression@ == name_source(self.expression));
        let reg = match build_regex(expression.as_str(), self.ignore_case) {
            Ok(reg) => reg,
            Err(_) => {
                return Err(CluErrors::RegexError(expression));
            },
        };
        let mut found: Vec<String> = Vec::new();
        let mut i: usize = 0;
        assert(texts(found@) =~= kept(reg, texts(parsed@), 0));
        while i < parsed.len()
            invariant
                i <= parsed.len(),
                texts(found@) == kept(reg, texts(parsed@), i as int),
            decreases parsed.len() - i,
        {
            assert(texts(parsed@)[i as int] == parsed@[i as int]@);
            if is_match(&reg, parsed[i].as_str()) {
                let item = parsed[i].clone();
                assert(texts(found@.push(item)) =~= texts(found@).push(item@));
                found.push(item);
            }
            i += 1;
        }
        Ok(found)
    }

    /// The text that a find over the expanded paths `parsed` gives, or its
    /// error: the kept paths joined by line feeds and trimmed of line feeds
    /// at both ends; an empty text is reported as not found.
    pub open spec fn execute_output(&self, parsed: Seq<Seq<char>>) -> Result<Seq<char>, ErrorModel> {
        match self.filtered(parsed) {
            Err(e) => Err(e),
            Ok(found) => if trimmed(joined(found)).len() == 0 {
                Err(ErrorModel::NotFoundError)
            } else {
                Ok(trimmed(joined(found)))
            },
        }
    }

    /// Filters the expanded paths and gives the text to print.
    pub fn execute(self, parsed: Vec<String>) -> (out: Result<String, CluErrors>)
        ensures
            text_result(out) == self.execute_output(texts(parsed@)),
    {
        match self.filter_by_name(parsed) {
            Err(e) => Err(e),
            Ok(filter) => {
                let found = trim_newlines(join_lines(&filter).as_str());
                if found.as_str().is_empty() {
                    Err(CluErrors::NotFoundError)
                } else {
                    Ok(found)
                }
            },
        }
    }
}

/// A find that keeps no path is reported as not found.
pub proof fn lemma_nothing_kept_is_not_found(find: Find, parsed: Seq<Seq<char>>)
    requires
        find.filtered(parsed) == Ok::<Seq<Seq<char>>, ErrorModel>(Seq::empty()),
    ensures
        find.execute_output(parsed) == Err::<Seq<char>, ErrorModel>(ErrorModel::NotFoundError),
{
    assert(joined(Seq::<Seq<char>>::empty()) =~= Seq::<char>::empty());
    assert(trimmed(Seq::<char>::empty()) =~= Seq::<char>::empty());
}

} // verus!
