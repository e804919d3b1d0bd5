//! Resolving a path pattern against a directory listing, and expanding
//! directories into the files below them.
//!
//! The caller lists directories and tells files from directories; this module
//! decides which entries a pattern selects and how the results combine.

use crate::clu_errors::{lines_result, CluErrors, ErrorModel};
use crate::pattern::{build_regex, is_match, regex_build, regex_matches};
use crate::text::{starts_with_char, texts};
use regex::Regex;
use std::path::Path;
use vstd::prelude::*;
use vstd::string::*;

verus! {

/// The view of a string that may be missing.
pub open spec fn optional_text(part: Option<String>) -> Option<Seq<char>> {
    match part {
        Some(text) => Some(text@),
        None => None,
    }
}

/// The parent of `path`, as std's `Path::parent` gives it: the path without
/// its final component, or `None` where there is none to take off.
pub uninterp spec fn path_parent_of(path: Seq<char>) -> Option<Seq<char>>;

/// The final component of `path`, as std's `Path::file_name` gives it, or
/// `None` where the path ends in none that is a name.
pub uninterp spec fn path_leaf_of(path: Seq<char>) -> Option<Seq<char>>;

/// Calls `Path::parent` on `path` and copies the result out.
///
/// The result depends on the text of the path alone, so it is
/// `path_parent_of` of it. std documents that the empty path has no parent.
#[verifier::external_body]
pub(crate) fn path_parent(path: &str) -> (parent: Option<String>)
    ensures
        optional_text(parent) == path_parent_of(path@),
        path@.len() == 0 ==> parent is None,
{
    Path::new(path).parent().map(|dir| dir.to_string_lossy().into_owned())
}

/// Calls `Path::file_name` on `path` and copies the result out.
///
/// The result depends on the text of the path alone, so it is `path_leaf_of`
/// of it.
#[verifier::external_body]
pub(crate) fn path_file_name(path: &str) -> (name: Option<String>)
    ensures
        optional_text(name) == path_leaf_of(path@),
{
    Path::new(path).file_name().map(|name| name.to_string_lossy().into_owned())
}

/// `name` below the directory `dir`: a name that starts at the root stands
/// for itself; else one `/` parts the two unless `dir` is empty or ends with one.
pub open spec fn joined_path(dir: Seq<char>, name: Seq<char>) -> Seq<char> {
    if name.len() > 0 && name[0] == '/' {
        name
    } else if dir.len() > 0 && dir.last() != '/' {
        dir + seq!['/'] + name
    } else {
        dir + name
    }
}

/// The path of `name` below the directory `dir`.
pub fn join_path(dir: &str, name: &str) -> (path: String)
    ensures
        path@ == joined_path(dir@, name@),
{
    if starts_with_char(name, '/') {
        return String::from_str(name);
    }
    let length = dir.unicode_len();
    let mut path = String::from_str(dir);
    if length > 0 && dir.get_char(length - 1) != '/' {
        proof {
            reveal_strlit("/");
        }
        path.append("/");
        assert(path@ =~= dir@ + seq!['/']);
    }
    path.append(name);
    path
}

/// The regular expression that a leaf fragment stands for: a fragment that
/// starts with `*` gets a `.` in front, and, where hidden entries are left
/// out, an anchor that keeps a leading dot from matching; any other fragment
/// stands for itself.
pub open spec fn leaf_source(leaf: Seq<char>, hidden_items: bool) -> Seq<char> {
    if leaf.len() > 0 && leaf[0] == '*' {
        if hidden_items {
            "."@ + leaf
        } else {
            "^[^\\.]."@ + leaf
        }
    } else {
        leaf
    }
}

/// Whether entries with a leading dot are left out for this fragment.
pub open spec fn leaves_out_hidden(leaf: Seq<char>, hidden_items: bool) -> bool {
    leaf.len() > 0 && leaf[0] == '*' && !hidden_items
}

/// The regular expression that the leaf fragment `leaf` stands for.
pub fn leaf_regex_source(leaf: &str, hidden_items: bool) -> (source: String)
    ensures
        source@ == leaf_source(leaf@, hidden_items),
{
    if starts_with_char(leaf, '*') {
        let mut source = if hidden_items {
            String::from_str(".")
        } else {
            String::from_str("^[^\\.].")
        };
        source.append(leaf);
        source
    } else {
        String::from_str(leaf)
    }
}

/// Why a path is refused.
pub open spec fn invalid_path_reason(path: Seq<char>) -> Seq<char> {
    "The introduced path: '"@ + path + "' isn't valid."@
}

/// Why an empty result is refused.
pub open spec fn empty_directory_reason(path: Seq<char>) -> Seq<char> {
    "Reading an empty directory at: "@ + path + "."@
}

/// A path pattern, resolved into the directory to list and the test for its entries.
pub struct PathPattern {
    /// The pattern as it was given.
    pub path: String,
    /// The directory whose entries are tested.
    pub parent: String,
    /// The compiled leaf fragment.
    pub matcher: Regex,
    /// Whether entries with a leading dot are left out.
    pub skips_hidden: bool,
}

impl PathPattern {
    /// Whether the pattern selects the entry `name`: the leaf fragment
    /// matches it, and it has no leading dot where those are left out.
    pub open spec fn selects(&self, name: Seq<char>) -> bool {
        regex_matches(self.matcher, name) && !(self.skips_hidden && name.len() > 0 && name[0]
            == '.')
    }

    /// The paths of the entries among the first `upto` of `names` that the pattern selects.
    pub open spec fn selected(&self, names: Seq<Seq<char>>, upto: int) -> Seq<Seq<char>>
        decreases upto,
    {
        if upto <= 0 {
            Seq::empty()
        } else if self.selects(names[upto - 1]) {
            self.selected(names, upto - 1).push(joined_path(self.parent@, names[upto - 1]))
        } else {
            self.selected(names, upto - 1)
        }
    }

    /// What resolving `path` gives once it is split into `parent` and `leaf`.
    ///
    /// A path without parent or without leaf is an input error. A leaf whose
    /// regular expression does not compile is a regex error that carries the
    /// expression. Otherwise the pattern lists `parent`, or `current_dir`
    /// where `parent` is empty, and tests with the compiled leaf.
    pub open spec fn resolved(
        path: Seq<char>,
        parent: Option<Seq<char>>,
        leaf: Option<Seq<char>>,
        current_dir: Seq<char>,
        hidden_items: bool,
        out: Result<PathPattern, CluErrors>,
    ) -> bool {
        if parent is None || leaf is None {
            out is Err && out->Err_0@ == ErrorModel::InputError(invalid_path_reason(path))
        } else {
            match regex_build(leaf_source(leaf->0, hidden_items), false) {
                None => out is Err && out->Err_0@ == ErrorModel::RegexError(
                    leaf_source(leaf->0, hidden_items),
                ),
                Some(reg) => {
                    &&& out is Ok
                    &&& out->Ok_0.path@ == path
                    &&& out->Ok_0.parent@ == if parent->0.len() == 0 {
                        current_dir
                    } else {
                        parent->0
                    }
                    &&& out->Ok_0.matcher == reg
                    &&& out->Ok_0.skips_hidden == leaves_out_hidden(leaf->0, hidden_items)
                },
            }
        }
    }

    /// Builds the pattern of `path` from its two components.
    pub fn new(
        path: &String,
        parent: Option<String>,
        leaf: Option<String>,
        current_dir: &str,
        hidden_items: bool,
    ) -> (out: Result<PathPattern, CluErrors>)
        ensures
            Self::resolved(
                path@,
                optional_text(parent),
                optional_text(leaf),
                current_dir@,
                hidden_items,
                out,
            ),
    {
        let (dir, name) = match (parent, leaf) {
            (Some(dir), Some(name)) => (dir, name),
            _ => {
                let mut reason = String::from_str("The introduced path: '");
                reason.append(path.as_str());
                reason.append("' isn't valid.");
                return Err(CluErrors::InputError(reason));
            },
        };
        let source = leaf_regex_source(name.as_str(), hidden_items);
        let skips_hidden = starts_with_char(name.as_str(), '*') && !hidden_items;
        match build_regex(source.as_str(), false) {
            Err(_) => Err(CluErrors::RegexError(source)),
            Ok(matcher) => {
                let parent = if dir.as_str().is_empty() {
                    String::from_str(current_dir)
                } else {
                    dir
                };
                Ok(PathPattern { path: path.clone(), parent, matcher, skips_hidden })
            },
        }
    }
}

/// Resolves `path` into the directory to list and the test for its entries.
///
/// The path is split into its parent and its final component, and the
/// outcome is what [`PathPattern::new`] gives for the two: an input error
/// where one of them is missing, as for the empty path; a regex error where
/// the leaf does not compile; else the pattern.
pub fn path_pattern(path: &String, hidden_items: bool, current_dir: &str) -> (out: Result<
    PathPattern,
    CluErrors,
>)
    ensures
        PathPattern::resolved(
            path@,
            path_parent_of(path@),
            path_leaf_of(path@),
            current_dir@,
            hidden_items,
            out,
        ),
        path@.len() == 0 ==> out is Err && out->Err_0@ == ErrorModel::InputError(
            invalid_path_reason(path@),
        ),
{
    let parent = path_parent(path.as_str());
    let leaf = path_file_name(path.as_str());
    PathPattern::new(path, parent, leaf, current_dir, hidden_items)
}

/// What a pattern gives on a listing: the paths of the selected entries, in
/// the order of the listing; at the top level an empty result is an input error.
pub open spec fn parsed_paths(
    pattern: PathPattern,
    names: Seq<Seq<char>>,
    recursively_executed: bool,
) -> Result<Seq<Seq<char>>, ErrorModel> {
    let found = pattern.selected(names, names.len() as int);
    if found.len() == 0 && !recursively_executed {
        Err(ErrorModel::InputError(empty_directory_reason(pattern.path@)))
    } else {
        Ok(found)
    }
}

/// Tests each entry of a listing of the pattern's directory and gives the
/// paths of those that the pattern selects.
pub fn parse_path(pattern: &PathPattern, names: &Vec<String>, recursively_executed: bool) -> (out:
    Result<Vec<String>, CluErrors>)
    ensures
        lines_result(out) == parsed_paths(*pattern, texts(names@), recursively_executed),
{
    let mut parsed: Vec<String> = Vec::new();
    let mut i: usize = 0;
    assert(texts(parsed@) =~= pattern.selected(texts(names@), 0));
    while i < names.len()
        invariant
            i <= names.len(),
            texts(parsed@) == pattern.selected(texts(names@), i as int),
        decreases names.len() - i,
    {
        let name = names[i].as_str();
        assert(texts(names@)[i as int] == name@);
        if is_match(&pattern.matcher, name) && !(pattern.skips_hidden && starts_with_char(
            name,
            '.',
        )) {
            let full = join_path(pattern.parent.as_str(), name);
            assert(texts(parsed@.push(full)) =~= texts(parsed@).push(full@));
            parsed.push(full);
        }
        i += 1;
    }
    if parsed.len() == 0 && !recursively_executed {
        let mut reason = String::from_str("Reading an empty directory at: ");
        reason.append(pattern.path.as_str());
        reason.append(".");
        return Err(CluErrors::InputError(reason));
    }
    Ok(parsed)
}

/// What an entry of a listing is.
#[derive(Debug, Clone, Copy, PartialEq, Eq, Structural)]
pub enum EntryKind {
    /// A regular file.
    File,
    /// A directory.
    Directory,
    /// Neither of the two, or not to be told.
    Other,
}

/// A path and what it names.
#[derive(Debug, Clone, PartialEq, Eq)]
pub struct Entry {
    pub path: String,
    pub kind: EntryKind,
}

/// The paths of the first `upto` entries.
pub open spec fn paths_among(entries: Seq<Entry>, upto: int) -> Seq<Seq<char>>
    decreases upto,
{
    if upto <= 0 {
        Seq::empty()
    } else {
        paths_among(entries, upto - 1).push(entries[upto - 1].path@)
    }
}

/// The paths of the files among the first `upto` entries.
pub open spec fn files_among(entries: Seq<Entry>, upto: int) -> Seq<Seq<char>>
    decreases upto,
{
    if upto <= 0 {
        Seq::empty()
    } else if entries[upto - 1].kind == EntryKind::File {
        files_among(entries, upto - 1).push(entries[upto - 1].path@)
    } else {
        files_among(entries, upto - 1)
    }
}

/// For each directory among the first `upto` entries, the pattern of all that it holds.
pub open spec fn patterns_among(entries: Seq<Entry>, upto: int) -> Seq<Seq<char>>
    decreases upto,
{
    if upto <= 0 {
        Seq::empty()
    } else if entries[upto - 1].kind == EntryKind::Directory {
        patterns_among(entries, upto - 1).push(joined_path(entries[upto - 1].path@, seq!['*']))
    } else {
        patterns_among(entries, upto - 1)
    }
}

/// The files among `entries`, kept as they are.
pub fn files_of(entries: &Vec<Entry>) -> (files: Vec<String>)
    ensures
        texts(files@) == files_among(entries@, entries@.len() as int),
{
    let mut files: Vec<String> = Vec::new();
    let mut i: usize = 0;
    assert(texts(files@) =~= files_among(entries@, 0));
    while i < entries.len()
        invariant
            i <= entries.len(),
            texts(files@) == files_among(entries@, i as int),
        decreases entries.len() - i,
    {
        if entries[i].kind == EntryKind::File {
            let path = entries[i].path.clone();
            assert(texts(files@.push(path)) =~= texts(files@).push(path@));
            files.push(path);
        }
        i += 1;
    }
    files
}

/// The patterns to resolve next: `<dir>/*` for each directory among `entries`.
pub fn directory_patterns(entries: &Vec<Entry>) -> (patterns: Vec<String>)
    ensures
        texts(patterns@) == patterns_among(entries@, entries@.len() as int),
{
    let mut patterns: Vec<String> = Vec::new();
    let mut i: usize = 0;
    assert(texts(patterns@) =~= patterns_among(entries@, 0));
    while i < entries.len()
        invariant
            i <= entries.len(),
            texts(patterns@) == patterns_among(entries@, i as int),
        decreases entries.len() - i,
    {
        if entries[i].kind == EntryKind::Directory {
            proof {
                reveal_strlit("*");
            }
            let pattern = join_path(entries[i].path.as_str(), "*");
            assert("*"@ =~= seq!['*']);
            assert(texts(patterns@.push(pattern)) =~= texts(patterns@).push(pattern@));
            patterns.push(pattern);
        }
        i += 1;
    }
    patterns
}

/// `files` followed by what the first `upto` directories expanded to, or the
/// error of the first of them that failed.
pub open spec fn merged_upto(
    files: Seq<Seq<char>>,
    expansions: Seq<Result<Vec<String>, CluErrors>>,
    upto: int,
) -> Result<Seq<Seq<char>>, ErrorModel>
    decreases upto,
{
    if upto <= 0 {
        Ok(files)
    } else {
        match merged_upto(files, expansions, upto - 1) {
            Err(e) => Err(e),
            Ok(earlier) => match expansions[upto - 1] {
                Err(e) => Err(e@),
                Ok(found) => Ok(earlier + texts(found@)),
            },
        }
    }
}

/// An error among the first expansions is the error of the whole list.
pub proof fn lemma_first_failure_stands(
    files: Seq<Seq<char>>,
    expansions: Seq<Result<Vec<String>, CluErrors>>,
    at: int,
    upto: int,
)
    requires
        at <= upto,
        merged_upto(files, expansions, at) is Err,
    ensures
        merged_upto(files, expansions, upto) == merged_upto(files, expansions, at),
    decreases upto - at,
{
    if at < upto {
        lemma_first_failure_stands(files, expansions, at, upto - 1);
    }
}

/// A copy of an error.
pub fn copy_error(error: &CluErrors) -> (copy: CluErrors)
    ensures
        copy@ == error@,
{
    match error {
        CluErrors::MissingCommand => CluErrors::MissingCommand,
        CluErrors::InvalidCommandCombination(mode) => CluErrors::InvalidCommandCombination(
            mode.clone(),
        ),
        CluErrors::InputError(reason) => CluErrors::InputError(reason.clone()),
        CluErrors::UnableToReadDirectory => CluErrors::UnableToReadDirectory,
        CluErrors::NotFoundError => CluErrors::NotFoundError,
        CluErrors::RegexError(regex) => CluErrors::RegexError(regex.clone()),
        CluErrors::UnexpectedError => CluErrors::UnexpectedError,
    }
}

/// Expands `entries` into files, given what each directory among them expanded to.
///
/// The files among the entries come first, as they are; then the expansion of
/// each directory, in the order given. The first expansion that failed fails
/// the whole call, and nothing of the others is returned. Entries that are all
/// files have nothing to expand and come back unchanged.
pub fn parse_path_recursively(
    entries: &Vec<Entry>,
    expansions: &Vec<Result<Vec<String>, CluErrors>>,
) -> (out: Result<Vec<String>, CluErrors>)
    ensures
        lines_result(out) == merged_upto(
            files_among(entries@, entries@.len() as int),
            expansions@,
            expansions@.len() as int,
        ),
{
    let mut files = files_of(entries);
    let ghost first = texts(files@);
    let mut i: usize = 0;
    while i < expansions.len()
        invariant
            i <= expansions.len(),
            first == files_among(entries@, entries@.len() as int),
            Ok::<Seq<Seq<char>>, ErrorModel>(texts(files@)) == merged_upto(
                first,
                expansions@,
                i as int,
            ),
        decreases expansions.len() - i,
    {
        match &expansions[i] {
            Err(e) => {
                proof {
                    assert(expansions@[i as int] == Err::<Vec<String>, CluErrors>(*e));
                    assert(merged_upto(first, expansions@, i as int + 1) == Err::<
                        Seq<Seq<char>>,
                        ErrorModel,
                    >(e@));
                    lemma_first_failure_stands(
                        first,
                        expansions@,
                        i as int + 1,
                        expansions@.len() as int,
                    );
                }
                return Err(copy_error(e));
            },
            Ok(found) => {
                assert(expansions@[i as int] == Ok::<Vec<String>, CluErrors>(*found));
                let mut j: usize = 0;
                let ghost earlier = texts(files@);
                assert(earlier + texts(found@).subrange(0, 0) =~= earlier);
                while j < found.len()
                    invariant
                        j <= found.len(),
                        texts(files@) == earlier + texts(found@).subrange(0, j as int),
                    decreases found.len() - j,
                {
                    let path = found[j].clone();
                    assert(texts(found@)[j as int] == path@);
                    assert(texts(files@.push(path)) =~= texts(files@).push(path@));
                    assert(texts(found@).subrange(0, j as int + 1) =~= texts(found@).subrange(
                        0,
                        j as int,
                    ).push(path@));
                    assert(texts(files@).push(path@) =~= earlier + texts(found@).subrange(
                        0,
                        j as int + 1,
                    ));
                    files.push(path);
                    j += 1;
                }
                assert(texts(found@).subrange(0, found@.len() as int) =~= texts(found@));
            },
        }
        i += 1;
    }
    Ok(files)
}

/// Entries that are all files are their own expansion.
pub proof fn lemma_all_files_unchanged(entries: Seq<Entry>, upto: int)
    requires
        upto <= entries.len(),
        forall|i: int| 0 <= i < entries.len() ==> (#[trigger] entries[i]).kind == EntryKind::File,
    ensures
        files_among(entries, upto) == paths_among(entries, upto),
        patterns_among(entries, upto) == Seq::<Seq<char>>::empty(),
    decreases upto,
{
    if upto > 0 {
        lemma_all_files_unchanged(entries, upto - 1);
    }
}

/// The hidden policy. A pattern whose leaf fragment starts with `*` selects no
/// entry with a leading dot unless hidden entries were asked for; where they
/// were, the dot makes no difference, and the fragment alone decides.
pub proof fn lemma_hidden_policy(
    path: Seq<char>,
    parent: Seq<char>,
    leaf: Seq<char>,
    current_dir: Seq<char>,
    hidden_items: bool,
    out: Result<PathPattern, CluErrors>,
    name: Seq<char>,
)
    requires
        leaf.len() > 0 && leaf[0] == '*',
        PathPattern::resolved(path, Some(parent), Some(leaf), current_dir, hidden_items, out),
        out is Ok,
    ensures
        !hidden_items && name.len() > 0 && name[0] == '.' ==> !out->Ok_0.selects(name),
        hidden_items ==> out->Ok_0.selects(name) == regex_matches(
            regex_build("."@ + leaf, false)->0,
            name,
        ),
{
}

/// The paths of those among the first `upto` of `names` that are not left out
/// for a leading dot: all of them, or with `skips_hidden` those without one.
pub open spec fn visible_paths(
    parent: Seq<char>,
    names: Seq<Seq<char>>,
    skips_hidden: bool,
    upto: int,
) -> Seq<Seq<char>>
    decreases upto,
{
    if upto <= 0 {
        Seq::empty()
    } else if skips_hidden && names[upto - 1].len() > 0 && names[upto - 1][0] == '.' {
        visible_paths(parent, names, skips_hidden, upto - 1)
    } else {
        visible_paths(parent, names, skips_hidden, upto - 1).push(
            joined_path(parent, names[upto - 1]),
        )
    }
}

/// Where the leaf fragment matches every listed name, as `*` does, the
/// hidden policy alone decides: with hidden entries asked for, each entry is
/// in the result, dotted or not, none is dropped; without, exactly those
/// with no leading dot are.
pub proof fn lemma_all_matching_entries(pattern: PathPattern, names: Seq<Seq<char>>, upto: int)
    requires
        upto <= names.len(),
        forall|i: int| 0 <= i < names.len() ==> regex_matches(pattern.matcher, #[trigger] names[i]),
    ensures
        pattern.selected(names, upto) == visible_paths(
            pattern.parent@,
            names,
            pattern.skips_hidden,
            upto,
        ),
        !pattern.skips_hidden && upto >= 0 ==> pattern.selected(names, upto).len() == upto,
    decreases upto,
{
    if upto > 0 {
        lemma_all_matching_entries(pattern, names, upto - 1);
        assert(regex_matches(pattern.matcher, names[upto - 1]));
    }
}

/// Where hidden entries are left out, no path in the result stems from an
/// entry with a leading dot: a listing of such entries alone gives nothing.
pub proof fn lemma_hidden_entries_left_out(pattern: PathPattern, names: Seq<Seq<char>>, upto: int)
    requires
        pattern.skips_hidden,
        upto <= names.len(),
        forall|i: int| 0 <= i < names.len() ==> (#[trigger] names[i]).len() > 0 && names[i][0] == '.',
    ensures
        pattern.selected(names, upto) == Seq::<Seq<char>>::empty(),
    decreases upto,
{
    if upto > 0 {
        lemma_hidden_entries_left_out(pattern, names, upto - 1);
    }
}

} // verus!
