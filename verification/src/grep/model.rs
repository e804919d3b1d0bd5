//! What a search is given and what it prints: the files and hits it works on,
//! and the mathematical model of its output, which says which lines are
//! emitted, in which order, and how each is rendered.

use crate::clu_errors::ErrorModel;
use crate::grep::context::Context;
use crate::grep::counters::Counters;
use crate::grep::options::Options;
use crate::pattern::{regex_finds, regex_matches};
use crate::text::{decimal, text_lines, texts};
use regex::Regex;
use vstd::prelude::*;

verus! {

/// A line of the output: where it stands in the content, what is printed of
/// it, and whether it is there as context only.
pub struct LineRecord {
    pub index: int,
    pub text: Seq<char>,
    pub is_context: bool,
}

/// A selected line: its index in the content and the pieces printed for it.
pub struct HitModel {
    pub index: int,
    pub parts: Seq<Seq<char>>,
}

/// A selected line, as the search hands it to the emitter.
pub struct Hit {
    /// The zero-based index of the line.
    pub index: usize,
    /// What is printed for the line: the line itself, or each match in it.
    pub parts: Vec<String>,
}

impl View for Hit {
    type V = HitModel;

    open spec fn view(&self) -> HitModel {
        HitModel { index: self.index as int, parts: texts(self.parts@) }
    }
}

/// The models of a list of hits.
pub open spec fn hit_models(hits: Seq<Hit>) -> Seq<HitModel> {
    hits.map_values(|h: Hit| h@)
}

/// The line indices of a list of hits.
pub open spec fn hit_indices(hits: Seq<HitModel>) -> Seq<int> {
    hits.map_values(|h: HitModel| h.index)
}

/// Indices given as machine integers, as mathematical ones.
pub open spec fn ints(indices: Seq<usize>) -> Seq<int> {
    indices.map_values(|i: usize| i as int)
}

/// Strictly ascending indices, all below `count`.
pub open spec fn valid_indices(idx: Seq<int>, count: int) -> bool {
    &&& forall|k: int| 0 <= k < idx.len() ==> 0 <= #[trigger] idx[k] < count
    &&& forall|j: int, k: int| 0 <= j < k < idx.len() ==> idx[j] < idx[k]
}

/// The first index of the window around `hit`.
pub open spec fn window_low(hit: int, before: int) -> int {
    if hit - before < 0 {
        0
    } else {
        hit - before
    }
}

/// The last index of the window around `hit` in a content of `length` lines.
pub open spec fn window_high(hit: int, after: int, length: int) -> int {
    if hit + after > length - 1 {
        length - 1
    } else {
        hit + after
    }
}

/// Whether `p` lies in the window of the hit number `k`.
pub open spec fn in_window(idx: Seq<int>, before: int, after: int, length: int, k: int, p: int) -> bool {
    0 <= k < idx.len() && window_low(idx[k], before) <= p <= window_high(idx[k], after, length)
}

/// Whether `p` lies in the window of one of the first `upto` hits.
pub open spec fn in_windows(
    idx: Seq<int>,
    before: int,
    after: int,
    length: int,
    upto: int,
    p: int,
) -> bool {
    exists|k: int| k < upto && #[trigger] in_window(idx, before, after, length, k, p)
}

/// Whether `p` is a line among the first `count` that is no hit and lies in
/// the window of one of the first `upto` hits.
pub open spec fn context_upto(
    idx: Seq<int>,
    before: int,
    after: int,
    length: int,
    count: int,
    upto: int,
    p: int,
) -> bool {
    &&& 0 <= p < count
    &&& !idx.contains(p)
    &&& in_windows(idx, before, after, length, upto, p)
}

/// Whether `p` is a context line: a line among the first `count` that is no
/// hit and lies in the window of a hit.
pub open spec fn is_context_index(
    idx: Seq<int>,
    before: int,
    after: int,
    length: int,
    count: int,
    p: int,
) -> bool {
    context_upto(idx, before, after, length, count, idx.len() as int, p)
}

/// The windows of the first `k + 1` hits are those of the first `k` and the
/// window of the hit number `k`.
pub proof fn lemma_windows_step(idx: Seq<int>, before: int, after: int, length: int, k: int, p: int)
    ensures
        in_windows(idx, before, after, length, k + 1, p) <==> (in_windows(
            idx,
            before,
            after,
            length,
            k,
            p,
        ) || in_window(idx, before, after, length, k, p)),
{
    if in_windows(idx, before, after, length, k + 1, p) {
        let j = choose|j: int| j < k + 1 && #[trigger] in_window(idx, before, after, length, j, p);
        if j < k {
            assert(in_windows(idx, before, after, length, k, p));
        }
    }
    if in_windows(idx, before, after, length, k, p) {
        let j = choose|j: int| j < k && #[trigger] in_window(idx, before, after, length, j, p);
        assert(j < k + 1);
    }
}

/// Where the window of the hit before number `k` ends; -1 for the first hit.
pub open spec fn floor_before(idx: Seq<int>, k: int, after: int) -> int {
    if k <= 0 {
        -1
    } else {
        idx[k - 1] + after
    }
}

/// The context lines with an index in `lo..hi` that lie above `floor`, in ascending order.
pub open spec fn context_run(
    lines: Seq<Seq<char>>,
    idx: Seq<int>,
    floor: int,
    lo: int,
    hi: int,
) -> Seq<LineRecord>
    decreases hi - lo,
{
    if lo >= hi {
        Seq::empty()
    } else {
        let rest = context_run(lines, idx, floor, lo, hi - 1);
        if hi - 1 > floor && !idx.contains(hi - 1) {
            rest.push(LineRecord { index: hi - 1, text: lines[hi - 1], is_context: true })
        } else {
            rest
        }
    }
}

/// The first `upto` pieces of a hit, each a record of its own.
pub open spec fn hit_run(hit: HitModel, upto: int) -> Seq<LineRecord> {
    Seq::new(
        upto as nat,
        |i: int| LineRecord { index: hit.index, text: hit.parts[i], is_context: false },
    )
}

/// What the hit number `k` contributes: the context lines before it that no
/// earlier window held, the hit, and the context lines after it likewise.
pub open spec fn block(
    lines: Seq<Seq<char>>,
    hits: Seq<HitModel>,
    k: int,
    before: int,
    after: int,
) -> Seq<LineRecord> {
    let idx = hit_indices(hits);
    let h = hits[k].index;
    let floor = floor_before(idx, k, after);
    context_run(lines, idx, floor, window_low(h, before), h) + hit_run(
        hits[k],
        hits[k].parts.len() as int,
    ) + context_run(lines, idx, floor, h + 1, window_high(h, after, lines.len() as int) + 1)
}

/// What the first `k` hits contribute.
pub open spec fn records_upto(
    lines: Seq<Seq<char>>,
    hits: Seq<HitModel>,
    k: int,
    before: int,
    after: int,
) -> Seq<LineRecord>
    decreases k,
{
    if k <= 0 {
        Seq::empty()
    } else {
        records_upto(lines, hits, k - 1, before, after) + block(lines, hits, k - 1, before, after)
    }
}

/// All records of a search, hit by hit.
pub open spec fn records(
    lines: Seq<Seq<char>>,
    hits: Seq<HitModel>,
    before: int,
    after: int,
) -> Seq<LineRecord> {
    records_upto(lines, hits, hits.len() as int, before, after)
}

/// A printed line: with `line_number`, the one-based index and `:` for a hit
/// or `-` for context go before the text.
pub open spec fn formatted(index: int, text: Seq<char>, is_context: bool, line_number: bool) -> Seq<
    char,
> {
    if line_number {
        decimal((index + 1) as nat) + seq![if is_context { '-' } else { ':' }] + text
    } else {
        text
    }
}

/// The printed form of each record.
pub open spec fn rendered(recs: Seq<LineRecord>, line_number: bool) -> Seq<Seq<char>> {
    recs.map_values(|r: LineRecord| formatted(r.index, r.text, r.is_context, line_number))
}

/// The lines a search prints.
pub open spec fn emitted(
    lines: Seq<Seq<char>>,
    hits: Seq<HitModel>,
    before: int,
    after: int,
    line_number: bool,
) -> Seq<Seq<char>> {
    rendered(records(lines, hits, before, after), line_number)
}

/// Whether a line is selected: it matches, or with `invert` it does not.
pub open spec fn selects(reg: Regex, line: Seq<char>, invert: bool) -> bool {
    regex_matches(reg, line) != invert
}

/// The pieces printed for a selected line: each match in it when `split`, else the line.
pub open spec fn hit_parts(reg: Regex, line: Seq<char>, split: bool) -> Seq<Seq<char>> {
    if split {
        regex_finds(reg, line)
    } else {
        seq![line]
    }
}

/// The selected lines among the first `upto` of `lines`, in ascending order.
pub open spec fn hit_rows(
    reg: Regex,
    lines: Seq<Seq<char>>,
    invert: bool,
    split: bool,
    upto: int,
) -> Seq<HitModel>
    decreases upto,
{
    if upto <= 0 {
        Seq::empty()
    } else {
        let rest = hit_rows(reg, lines, invert, split, upto - 1);
        if selects(reg, lines[upto - 1], invert) {
            rest.push(HitModel { index: upto - 1, parts: hit_parts(reg, lines[upto - 1], split) })
        } else {
            rest
        }
    }
}

/// The number of lines among the first `upto` of `lines` that `reg` matches.
pub open spec fn matching_lines(reg: Regex, lines: Seq<Seq<char>>, upto: int) -> nat
    decreases upto,
{
    if upto <= 0 {
        0
    } else {
        matching_lines(reg, lines, upto - 1) + if regex_matches(reg, lines[upto - 1]) {
            1nat
        } else {
            0nat
        }
    }
}

/// What a search prints for a content of `lines`.
///
/// A positive `context` replaces both `before_context` and `after_context`.
/// With `invert_match` the selected lines are printed whole, whatever
/// `only_matching` says.
pub open spec fn search_output(
    reg: Regex,
    lines: Seq<Seq<char>>,
    before_context: usize,
    after_context: usize,
    context: usize,
    line_number: bool,
    invert_match: bool,
    only_matching: bool,
) -> Seq<Seq<char>> {
    emitted(
        lines,
        hit_rows(reg, lines, invert_match, only_matching && !invert_match, lines.len() as int),
        (if context > 0 { context } else { before_context }) as int,
        (if context > 0 { context } else { after_context }) as int,
        line_number,
    )
}

/// The selected lines come in ascending order, each below `upto`.
pub proof fn lemma_hit_rows_valid(reg: Regex, lines: Seq<Seq<char>>, invert: bool, split: bool, upto: int)
    requires
        upto <= lines.len(),
    ensures
        valid_indices(hit_indices(hit_rows(reg, lines, invert, split, upto)), upto),
    decreases upto,
{
    if upto > 0 {
        lemma_hit_rows_valid(reg, lines, invert, split, upto - 1);
        let rest = hit_rows(reg, lines, invert, split, upto - 1);
        let all = hit_rows(reg, lines, invert, split, upto);
        assert forall|k: int| 0 <= k < hit_indices(all).len() implies 0 <= #[trigger] hit_indices(
            all,
        )[k] < upto by {
            if k < rest.len() {
                assert(hit_indices(rest)[k] == hit_indices(all)[k]);
            }
        }
        assert forall|j: int, k: int| 0 <= j < k < hit_indices(all).len() implies hit_indices(all)[j]
            < hit_indices(all)[k] by {
            assert(hit_indices(rest)[j] == hit_indices(all)[j]);
            if k < rest.len() {
                assert(hit_indices(rest)[k] == hit_indices(all)[k]);
            }
        }
    }
}

/// What is known of a file when the search starts.
#[derive(Debug, Clone, PartialEq, Eq)]
pub enum FileState {
    /// The path names a directory.
    Directory,
    /// The file could not be read.
    Unreadable,
    /// The whole text of the file.
    Contents(String),
}

/// A file to search in: its path and what reading it gave.
#[derive(Debug, Clone, PartialEq, Eq)]
pub struct FileInput {
    pub path: String,
    pub state: FileState,
}

/// Why a directory is refused.
pub open spec fn directory_reason(path: Seq<char>) -> Seq<char> {
    path
        + " is dir. If you want to use grep recursively in a directory, add the -R flag. For more information try --help"@
}

/// Why an unreadable file is refused.
pub open spec fn unreadable_reason(path: Seq<char>) -> Seq<char> {
    path + " cannot be read"@
}

/// The header that goes before the lines of a file.
pub open spec fn file_header(path: Seq<char>) -> Seq<char> {
    "\n\t----"@ + path + "----\n"@
}

/// What one readable file contributes, by mode: the count of matching lines,
/// the count of matches, the path if the file is listed, or the search's lines.
pub open spec fn file_lines(
    reg: Regex,
    path: Seq<char>,
    contents: Seq<char>,
    context: Context,
    options: Options,
    counters: Counters,
) -> Seq<Seq<char>> {
    if counters.count {
        seq![
            decimal(matching_lines(reg, text_lines(contents), text_lines(contents).len() as int)),
        ]
    } else if counters.total_count {
        seq![decimal(regex_finds(reg, contents).len())]
    } else if options.files_with_matches {
        if regex_matches(reg, contents) != options.invert_match {
            seq![path]
        } else {
            Seq::empty()
        }
    } else {
        search_output(
            reg,
            text_lines(contents),
            context.before_context,
            context.after_context,
            context.context,
            options.line_number,
            options.invert_match,
            options.only_matching,
        )
    }
}

/// What one file contributes, or the error that it raises: a directory and an
/// unreadable file are input errors.
pub open spec fn single_file_output(
    reg: Regex,
    file: FileInput,
    context: Context,
    options: Options,
    counters: Counters,
) -> Result<Seq<Seq<char>>, ErrorModel> {
    match file.state {
        FileState::Directory => Err(ErrorModel::InputError(directory_reason(file.path@))),
        FileState::Unreadable => Err(ErrorModel::InputError(unreadable_reason(file.path@))),
        FileState::Contents(contents) => Ok(
            file_lines(reg, file.path@, contents@, context, options, counters),
        ),
    }
}

/// The block of one file in the aggregate: nothing where the file gave no
/// line; else its lines after a header, which is empty when files are listed.
pub open spec fn file_block(
    reg: Regex,
    file: FileInput,
    context: Context,
    options: Options,
    counters: Counters,
) -> Result<Seq<Seq<char>>, ErrorModel> {
    match single_file_output(reg, file, context, options, counters) {
        Err(e) => Err(e),
        Ok(call) => if call.len() == 0 {
            Ok(Seq::empty())
        } else if options.files_with_matches {
            Ok(seq![Seq::<char>::empty()] + call)
        } else {
            Ok(seq![file_header(file.path@)] + call)
        },
    }
}

/// The blocks of the first `upto` files one after the other, or the error of
/// the first file that raises one.
pub open spec fn blocks_upto(
    reg: Regex,
    files: Seq<FileInput>,
    context: Context,
    options: Options,
    counters: Counters,
    upto: int,
) -> Result<Seq<Seq<char>>, ErrorModel>
    decreases upto,
{
    if upto <= 0 {
        Ok(Seq::empty())
    } else {
        match blocks_upto(reg, files, context, options, counters, upto - 1) {
            Err(e) => Err(e),
            Ok(earlier) => match file_block(reg, files[upto - 1], context, options, counters) {
                Err(e) => Err(e),
                Ok(lines) => Ok(earlier + lines),
            },
        }
    }
}

/// An error among the first files is the error of the whole list.
pub proof fn lemma_first_error_stands(
    reg: Regex,
    files: Seq<FileInput>,
    context: Context,
    options: Options,
    counters: Counters,
    at: int,
    upto: int,
)
    requires
        at <= upto,
        blocks_upto(reg, files, context, options, counters, at) is Err,
    ensures
        blocks_upto(reg, files, context, options, counters, upto) == blocks_upto(
            reg,
            files,
            context,
            options,
            counters,
            at,
        ),
    decreases upto - at,
{
    if at < upto {
        lemma_first_error_stands(reg, files, context, options, counters, at, upto - 1);
    }
}

/// Rendering goes record by record.
pub proof fn lemma_rendered_push(recs: Seq<LineRecord>, r: LineRecord, line_number: bool)
    ensures
        rendered(recs.push(r), line_number) == rendered(recs, line_number).push(
            formatted(r.index, r.text, r.is_context, line_number),
        ),
{
    assert(rendered(recs.push(r), line_number) =~= rendered(recs, line_number).push(
        formatted(r.index, r.text, r.is_context, line_number),
    ));
}

/// Once the window of the hit number `k` is emitted, the context lines still
/// to come are those above the end of that window.
pub proof fn lemma_window_advance(idx: Seq<int>, before: int, after: int, length: int, k: int, q: int)
    requires
        valid_indices(idx, length),
        0 <= k < idx.len(),
        0 <= before,
        0 <= after,
    ensures
        (is_context_index(idx, before, after, length, length, q) && q > floor_before(idx, k, after)
            && !in_window(idx, before, after, length, k, q)) <==> (is_context_index(
            idx,
            before,
            after,
            length,
            length,
            q,
        ) && q > floor_before(idx, k + 1, after)),
{
    if is_context_index(idx, before, after, length, length, q) {
        let j = choose|j: int|
            j < idx.len() as int && #[trigger] in_window(idx, before, after, length, j, q);
        if q > floor_before(idx, k, after) && !in_window(idx, before, after, length, k, q) {
            if j < k {
                assert(idx[j] <= idx[k - 1]);
            } else if j > k {
                assert(idx[k] < idx[j]);
            }
        }
        if q > floor_before(idx, k + 1, after) {
            if k > 0 {
                assert(idx[k - 1] < idx[k]);
            }
        }
    }
}

} // verus!
