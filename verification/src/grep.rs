//! Line-oriented content search.

use crate::clu_errors::{lines_result, text_result, CluErrors, ErrorModel};
use crate::grep::context::Context;
use crate::grep::counters::Counters;
use crate::grep::model::{
    block, blocks_upto, context_run, context_upto, emitted, file_block, file_header, floor_before,
    formatted, hit_indices, hit_models, hit_parts, hit_rows, hit_run, in_window, ints,
    is_context_index, lemma_first_error_stands, lemma_hit_rows_valid, lemma_rendered_push,
    lemma_window_advance, lemma_windows_step, matching_lines, records_upto, rendered,
    search_output, single_file_output, valid_indices, FileInput, FileState, Hit, LineRecord,
};
use crate::grep::options::Options;
use crate::pattern::{build_regex, find_all, is_match, regex_build, regex_finds, regex_matches};
use crate::text::{
    decimal, decimal_string, join_lines, joined, split_lines, str_texts, text_lines, texts, trim_newlines,
    trimmed,
};
use regex::Regex;
use std::collections::HashMap;
use vstd::prelude::*;
use vstd::string::*;

pub mod context;
pub mod counters;
pub mod lemmas;
pub mod model;
pub mod options;

verus! {

broadcast use vstd::std_specs::hash::group_hash_axioms;

/// A search request.
pub struct Grep {
    /// The regular expression to look for.
    pub pattern: Box<String>,
    /// The paths to search in.
    pub path: Vec<String>,
    /// Descend into directories.
    pub dereference_recursive: bool,
    /// Match without regard to case.
    pub ignore_case: bool,
    /// Look at entries whose name starts with a dot too.
    pub hidden_items: bool,
    pub context: Context,
    pub options: Options,
    pub counters: Counters,
}

/// Where the paths of a search come from.
#[derive(Debug, Clone, Copy, PartialEq, Eq, Structural)]
pub enum PathSource {
    /// The paths are taken as they were given.
    AsGiven,
    /// The one path is a pattern to resolve against its directory.
    Resolve,
}

/// Whether `p` is one of `indices`.
pub fn contains_index(indices: &Vec<usize>, p: usize) -> (found: bool)
    ensures
        found == ints(indices@).contains(p as int),
{
    let mut k: usize = 0;
    while k < indices.len()
        invariant
            k <= indices.len(),
            forall|j: int| 0 <= j < k ==> indices@[j] != p,
        decreases indices.len() - k,
    {
        if indices[k] == p {
            assert(ints(indices@)[k as int] == p as int);
            return true;
        }
        k += 1;
    }
    assert forall|j: int| 0 <= j < ints(indices@).len() implies ints(indices@)[j] != p as int by {
        assert(indices@[j] != p);
    }
    false
}

/// The context lines around the hits at `indices`: each line outside
/// `indices` that lies in the window of one of them, with its text.
pub fn context_map<'a>(
    lines: &Vec<&'a str>,
    indices: &Vec<usize>,
    after: usize,
    before: usize,
    length: usize,
) -> (map: HashMap<usize, &'a str>)
    ensures
        forall|p: usize|
            #[trigger] map@.contains_key(p) <==> is_context_index(
                ints(indices@),
                before as int,
                after as int,
                length as int,
                lines@.len() as int,
                p as int,
            ),
        forall|p: usize|
            #[trigger] map@.contains_key(p) ==> p < lines@.len() && map@[p]@ == lines@[p as int]@,
{
    let ghost idx = ints(indices@);
    let ghost b = before as int;
    let ghost a = after as int;
    let ghost n = length as int;
    let ghost count = lines@.len() as int;
    let mut map: HashMap<usize, &'a str> = HashMap::new();
    let mut k: usize = 0;
    while k < indices.len()
        invariant
            k <= indices.len(),
            idx == ints(indices@),
            b == before as int,
            a == after as int,
            n == length as int,
            count == lines@.len() as int,
            forall|p: usize|
                #[trigger] map@.contains_key(p) <==> context_upto(idx, b, a, n, count, k as int, p as int),
            forall|p: usize|
                #[trigger] map@.contains_key(p) ==> p < lines@.len() && map@[p]@ == lines@[p as int]@,
        decreases indices.len() - k,
    {
        let h = indices[k];
        assert(idx[k as int] == h as int);
        let low: usize = if before > h { 0 } else { h - before };
        if length > 0 {
            let high: usize = if h > length - 1 || after > length - 1 - h {
                length - 1
            } else {
                h + after
            };
            let mut p: usize = low;
            while p <= high
                invariant
                    low <= p,
                    high < usize::MAX,
                    k < indices.len(),
                    idx == ints(indices@),
                    count == lines@.len() as int,
                    forall|q: usize|
                        #[trigger] map@.contains_key(q) <==> (context_upto(
                            idx,
                            b,
                            a,
                            n,
                            count,
                            k as int,
                            q as int,
                        ) || (q < count && !idx.contains(q as int) && low <= q < p && q <= high)),
                    forall|q: usize|
                        #[trigger] map@.contains_key(q) ==> q < lines@.len() && map@[q]@
                            == lines@[q as int]@,
                decreases high + 1 - p,
            {
                if p < lines.len() && !contains_index(indices, p) && !map.contains_key(&p) {
                    map.insert(p, lines[p]);
                }
                p += 1;
            }
            assert forall|q: usize|
                #[trigger] map@.contains_key(q) <==> context_upto(
                    idx,
                    b,
                    a,
                    n,
                    count,
                    k as int + 1,
                    q as int,
                ) by {
                lemma_windows_step(idx, b, a, n, k as int, q as int);
            }
        } else {
            assert forall|q: usize|
                #[trigger] map@.contains_key(q) <==> context_upto(
                    idx,
                    b,
                    a,
                    n,
                    count,
                    k as int + 1,
                    q as int,
                ) by {
                lemma_windows_step(idx, b, a, n, k as int, q as int);
            }
        }
        k += 1;
    }
    map
}

/// The line indices of `hits`.
pub fn indices_of(hits: &Vec<Hit>) -> (indices: Vec<usize>)
    ensures
        ints(indices@) == hit_indices(hit_models(hits@)),
{
    let mut indices: Vec<usize> = Vec::new();
    let mut k: usize = 0;
    while k < hits.len()
        invariant
            k <= hits.len(),
            indices@.len() == k,
            forall|j: int| 0 <= j < k ==> indices@[j] == hits@[j].index,
        decreases hits.len() - k,
    {
        indices.push(hits[k].index);
        k += 1;
    }
    assert(ints(indices@) =~= hit_indices(hit_models(hits@)));
    indices
}

impl Grep {
    /// Renders one line of the output: with `line_number_flag`, the one-based
    /// line number and `:` (a hit) or `-` (context) go before the text.
    pub fn output_search_lines(
        line_number: usize,
        line: &str,
        is_context_line: bool,
        line_number_flag: bool,
    ) -> (printed: String)
        ensures
            printed@ == formatted(line_number as int, line@, is_context_line, line_number_flag),
    {
        if line_number_flag {
            let mut printed = decimal_string(line_number as u128 + 1);
            proof {
                reveal_strlit("-");
                reveal_strlit(":");
            }
            if is_context_line {
                printed.append("-");
            } else {
                printed.append(":");
            }
            printed.append(line);
            assert(printed@ =~= formatted(
                line_number as int,
                line@,
                is_context_line,
                line_number_flag,
            ));
            printed
        } else {
            String::from_str(line)
        }
    }
}

/// Emits the context lines with an index in `lo..hi` that are still in `map`,
/// and takes them out of it.
fn emit_context<'a>(
    out: &mut Vec<String>,
    map: &mut HashMap<usize, &'a str>,
    lo: usize,
    hi: usize,
    line_number_flag: bool,
    Ghost(lines): Ghost<Seq<Seq<char>>>,
    Ghost(idx): Ghost<Seq<int>>,
    Ghost(floor): Ghost<int>,
    Ghost(recs): Ghost<Seq<LineRecord>>,
)
    requires
        lo <= hi,
        texts(old(out)@) == rendered(recs, line_number_flag),
        forall|q: usize|
            lo <= q < hi ==> (#[trigger] old(map)@.contains_key(q) <==> (q as int > floor
                && !idx.contains(q as int))),
        forall|q: usize|
            #[trigger] old(map)@.contains_key(q) ==> q < lines.len() && old(map)@[q]@ == lines[q as int],
    ensures
        texts(final(out)@) == rendered(recs + context_run(lines, idx, floor, lo as int, hi as int), line_number_flag),
        forall|q: usize|
            #[trigger] final(map)@.contains_key(q) <==> (old(map)@.contains_key(q) && !(lo <= q < hi)),
        forall|q: usize|
            #[trigger] final(map)@.contains_key(q) ==> final(map)@[q] == old(map)@[q],
{
    let mut p: usize = lo;
    assert(recs + context_run(lines, idx, floor, lo as int, lo as int) =~= recs);
    while p < hi
        invariant
            lo <= p <= hi,
            texts(out@) == rendered(
                recs + context_run(lines, idx, floor, lo as int, p as int),
                line_number_flag,
            ),
            forall|q: usize|
                #[trigger] map@.contains_key(q) <==> (old(map)@.contains_key(q) && !(lo <= q < p)),
            forall|q: usize| #[trigger] map@.contains_key(q) ==> map@[q] == old(map)@[q],
            forall|q: usize|
                lo <= q < hi ==> (#[trigger] old(map)@.contains_key(q) <==> (q as int > floor
                    && !idx.contains(q as int))),
            forall|q: usize|
                #[trigger] old(map)@.contains_key(q) ==> q < lines.len() && old(map)@[q]@
                    == lines[q as int],
        decreases hi - p,
    {
        let ghost before_run = context_run(lines, idx, floor, lo as int, p as int);
        assert(map@.contains_key(p) <==> old(map)@.contains_key(p));
        if map.contains_key(&p) {
            let taken = map.remove(&p);
            let line = taken.unwrap();
            let printed = Grep::output_search_lines(p, line, true, line_number_flag);
            let ghost r = LineRecord { index: p as int, text: lines[p as int], is_context: true };
            proof {
                lemma_rendered_push(recs + before_run, r, line_number_flag);
                assert(texts(out@.push(printed)) =~= texts(out@).push(printed@));
                assert((recs + before_run).push(r) =~= recs + before_run.push(r));
            }
            out.push(printed);
        }
        p += 1;
    }
}

/// Emits the pieces of one hit, each as a line of its own.
fn emit_hit(
    out: &mut Vec<String>,
    hit: &Hit,
    line_number_flag: bool,
    Ghost(recs): Ghost<Seq<LineRecord>>,
)
    requires
        texts(old(out)@) == rendered(recs, line_number_flag),
    ensures
        texts(final(out)@) == rendered(
            recs + hit_run(hit@, hit@.parts.len() as int),
            line_number_flag,
        ),
{
    let mut j: usize = 0;
    assert(recs + hit_run(hit@, 0) =~= recs);
    while j < hit.parts.len()
        invariant
            j <= hit.parts@.len(),
            texts(out@) == rendered(recs + hit_run(hit@, j as int), line_number_flag),
        decreases hit.parts.len() - j,
    {
        let printed = Grep::output_search_lines(
            hit.index,
            hit.parts[j].as_str(),
            false,
            line_number_flag,
        );
        let ghost r = LineRecord { index: hit@.index, text: hit@.parts[j as int], is_context: false };
        proof {
            lemma_rendered_push(recs + hit_run(hit@, j as int), r, line_number_flag);
            assert(texts(out@.push(printed)) =~= texts(out@).push(printed@));
            assert((recs + hit_run(hit@, j as int)).push(r) =~= recs + hit_run(hit@, j as int + 1));
        }
        out.push(printed);
        j += 1;
    }
}

/// Emits the output of a search over `lines` whose selected lines are `hits`.
///
/// Hit by hit, in ascending order: the context lines of the window before the
/// hit that no earlier window held, the pieces of the hit, then the context
/// lines of the window after it likewise. Each context line is emitted once.
pub fn emit_lines(
    lines: &Vec<&str>,
    hits: &Vec<Hit>,
    before: usize,
    after: usize,
    line_number_flag: bool,
) -> (out: Vec<String>)
    requires
        valid_indices(hit_indices(hit_models(hits@)), lines@.len() as int),
    ensures
        texts(out@) == emitted(
            str_texts(lines@),
            hit_models(hits@),
            before as int,
            after as int,
            line_number_flag,
        ),
{
    let ghost ls = str_texts(lines@);
    let ghost hs = hit_models(hits@);
    let ghost idx = hit_indices(hs);
    let ghost b = before as int;
    let ghost a = after as int;
    let ghost n = lines@.len() as int;
    let indices = indices_of(hits);
    let mut map = context_map(lines, &indices, after, before, lines.len());
    let mut out: Vec<String> = Vec::new();
    let mut k: usize = 0;
    assert(texts(out@) =~= rendered(records_upto(ls, hs, 0, b, a), line_number_flag));
    while k < hits.len()
        invariant
            k <= hits.len(),
            ls == str_texts(lines@),
            hs == hit_models(hits@),
            idx == hit_indices(hs),
            b == before as int,
            a == after as int,
            n == lines@.len() as int,
            valid_indices(idx, n),
            texts(out@) == rendered(records_upto(ls, hs, k as int, b, a), line_number_flag),
            forall|q: usize|
                #[trigger] map@.contains_key(q) <==> (is_context_index(idx, b, a, n, n, q as int)
                    && q as int > floor_before(idx, k as int, a)),
            forall|q: usize|
                #[trigger] map@.contains_key(q) ==> q < lines@.len() && map@[q]@ == ls[q as int],
        decreases hits.len() - k,
    {
        let h = hits[k].index;
        assert(idx[k as int] == h as int);
        assert(hs[k as int] == hits@[k as int]@);
        let low: usize = if before > h { 0 } else { h - before };
        let high: usize = if after > lines.len() - 1 - h { lines.len() - 1 } else { h + after };
        let ghost floor = floor_before(idx, k as int, a);
        let ghost upto = records_upto(ls, hs, k as int, b, a);
        assert forall|q: usize| low <= q <= high implies (#[trigger] map@.contains_key(q) <==> (q as int
            > floor && !idx.contains(q as int))) by {
            assert(in_window(idx, b, a, n, k as int, q as int));
        }
        emit_context(
            &mut out,
            &mut map,
            low,
            h,
            line_number_flag,
            Ghost(ls),
            Ghost(idx),
            Ghost(floor),
            Ghost(upto),
        );
        let ghost first = upto + context_run(ls, idx, floor, low as int, h as int);
        emit_hit(&mut out, &hits[k], line_number_flag, Ghost(first));
        let ghost second = first + hit_run(hs[k as int], hs[k as int].parts.len() as int);
        emit_context(
            &mut out,
            &mut map,
            h + 1,
            high + 1,
            line_number_flag,
            Ghost(ls),
            Ghost(idx),
            Ghost(floor),
            Ghost(second),
        );
        proof {
            let third = second + context_run(ls, idx, floor, h as int + 1, high as int + 1);
            assert(third =~= upto + block(ls, hs, k as int, b, a));
            assert forall|q: usize|
                #[trigger] map@.contains_key(q) <==> (is_context_index(idx, b, a, n, n, q as int)
                    && q as int > floor_before(idx, k as int + 1, a)) by {
                lemma_window_advance(idx, b, a, n, k as int, q as int);
                assert(idx.contains(h as int));
            }
        }
        k += 1;
    }
    out
}

/// Selects the lines that `reg` matches, or with `invert_match` those it does
/// not, and gives each the pieces to print: the whole line, or with `split`
/// each match in it.
pub fn select_hits(reg: &Regex, lines: &Vec<&str>, invert_match: bool, split: bool) -> (hits: Vec<Hit>)
    ensures
        hit_models(hits@) == hit_rows(
            *reg,
            str_texts(lines@),
            invert_match,
            split,
            lines@.len() as int,
        ),
{
    let ghost ls = str_texts(lines@);
    let mut hits: Vec<Hit> = Vec::new();
    let mut i: usize = 0;
    assert(hit_models(hits@) =~= hit_rows(*reg, ls, invert_match, split, 0));
    while i < lines.len()
        invariant
            i <= lines.len(),
            ls == str_texts(lines@),
            hit_models(hits@) == hit_rows(*reg, ls, invert_match, split, i as int),
        decreases lines.len() - i,
    {
        let line: &str = lines[i];
        assert(ls[i as int] == line@);
        if is_match(reg, line) != invert_match {
            let parts = if split {
                find_all(reg, line)
            } else {
                let mut whole: Vec<String> = Vec::new();
                whole.push(String::from_str(line));
                whole
            };
            assert(texts(parts@) =~= hit_parts(*reg, line@, split));
            let hit = Hit { index: i, parts };
            assert(hit_models(hits@.push(hit)) =~= hit_models(hits@).push(hit@));
            hits.push(hit);
        }
        i += 1;
    }
    hits
}

impl Grep {
    /// The standard search: the selected lines of `contents` with their
    /// context, rendered one per entry.
    pub fn search(
        reg: Regex,
        contents: String,
        before_context: usize,
        after_context: usize,
        context: usize,
        line_number_flag: bool,
        invert_match: bool,
        only_matching: bool,
    ) -> (out: Vec<String>)
        ensures
            texts(out@) == search_output(
                reg,
                text_lines(contents@),
                before_context,
                after_context,
                context,
                line_number_flag,
                invert_match,
                only_matching,
            ),
    {
        Self::search_text(
            &reg,
            contents.as_str(),
            before_context,
            after_context,
            context,
            line_number_flag,
            invert_match,
            only_matching,
        )
    }

    /// The standard search on borrowed text; see [`Grep::search`].
    pub fn search_text(
        reg: &Regex,
        contents: &str,
        before_context: usize,
        after_context: usize,
        context: usize,
        line_number_flag: bool,
        invert_match: bool,
        only_matching: bool,
    ) -> (out: Vec<String>)
        ensures
            texts(out@) == search_output(
                *reg,
                text_lines(contents@),
                before_context,
                after_context,
                context,
                line_number_flag,
                invert_match,
                only_matching,
            ),
    {
        let lines = split_lines(contents);
        let filtered_lines = select_hits(reg, &lines, invert_match, only_matching && !invert_match);
        let window = Context { after_context, before_context, context }.window();
        proof {
            lemma_hit_rows_valid(
                *reg,
                str_texts(lines@),
                invert_match,
                only_matching && !invert_match,
                lines@.len() as int,
            );
        }
        emit_lines(&lines, &filtered_lines, window.0, window.1, line_number_flag)
    }

    /// The number of lines of `contents` that `reg` matches, in decimal, as the one entry.
    pub fn count(reg: Regex, contents: String) -> (out: Vec<String>)
        ensures
            texts(out@) == seq![
                decimal(
                    matching_lines(reg, text_lines(contents@), text_lines(contents@).len() as int),
                ),
            ],
    {
        Self::count_text(&reg, contents.as_str())
    }

    /// The count of matching lines on borrowed text; see [`Grep::count`].
    pub fn count_text(reg: &Regex, contents: &str) -> (out: Vec<String>)
        ensures
            texts(out@) == seq![
                decimal(
                    matching_lines(*reg, text_lines(contents@), text_lines(contents@).len() as int),
                ),
            ],
    {
        let lines = split_lines(contents);
        let ghost ls = str_texts(lines@);
        let mut matching: usize = 0;
        let mut i: usize = 0;
        while i < lines.len()
            invariant
                i <= lines.len(),
                ls == str_texts(lines@),
                matching <= i,
                matching == matching_lines(*reg, ls, i as int),
            decreases lines.len() - i,
        {
            let line: &str = lines[i];
            assert(ls[i as int] == line@);
            if is_match(reg, line) {
                matching += 1;
            }
            i += 1;
        }
        let mut out: Vec<String> = Vec::new();
        out.push(decimal_string(matching as u128));
        assert(texts(out@) =~= seq![decimal(matching as nat)]);
        out
    }

    /// The number of non-overlapping matches of `reg` in `contents`, in decimal, as the one entry.
    pub fn total_count(reg: Regex, contents: String) -> (out: Vec<String>)
        ensures
            texts(out@) == seq![decimal(regex_finds(reg, contents@).len())],
    {
        Self::total_count_text(&reg, contents.as_str())
    }

    /// The count of matches on borrowed text; see [`Grep::total_count`].
    pub fn total_count_text(reg: &Regex, contents: &str) -> (out: Vec<String>)
        ensures
            texts(out@) == seq![decimal(regex_finds(*reg, contents@).len())],
    {
        let found = find_all(reg, contents);
        let mut out: Vec<String> = Vec::new();
        out.push(decimal_string(found.len() as u128));
        assert(texts(out@) =~= seq![decimal(regex_finds(*reg, contents@).len())]);
        out
    }

    /// Whether `contents` holds a match of `reg`; with `invert_match`, whether it holds none.
    pub fn files_with_matches(reg: Regex, contents: String, invert_match: bool) -> (listed: bool)
        ensures
            listed == (regex_matches(reg, contents@) != invert_match),
    {
        Self::files_with_matches_text(&reg, contents.as_str(), invert_match)
    }

    /// Whether borrowed text lists its file; see [`Grep::files_with_matches`].
    pub fn files_with_matches_text(reg: &Regex, contents: &str, invert_match: bool) -> (listed: bool)
        ensures
            listed == (regex_matches(*reg, contents@) != invert_match),
    {
        is_match(reg, contents) != invert_match
    }
}

/// The line indices of a list of selected lines.
pub open spec fn pair_indices(filtered_lines: Seq<(usize, &str)>) -> Seq<int> {
    filtered_lines.map_values(|hit: (usize, &str)| hit.0 as int)
}

impl Grep {
    /// The context lines of `contents` around the selected lines: each line
    /// that is not selected and lies in the window of a selected one, which
    /// reaches `before` lines back and `after` lines on, and ends with the
    /// line number `contents_length - 1`.
    pub fn context_lines<'a>(
        contents: &'a str,
        filtered_lines: &Vec<(usize, &str)>,
        after: usize,
        before: usize,
        contents_length: usize,
    ) -> (map: HashMap<usize, &'a str>)
        ensures
            forall|p: usize|
                #[trigger] map@.contains_key(p) <==> is_context_index(
                    pair_indices(filtered_lines@),
                    before as int,
                    after as int,
                    contents_length as int,
                    text_lines(contents@).len() as int,
                    p as int,
                ),
            forall|p: usize|
                #[trigger] map@.contains_key(p) ==> map@[p]@ == text_lines(contents@)[p as int],
    {
        let lines = split_lines(contents);
        let mut indices: Vec<usize> = Vec::new();
        let mut k: usize = 0;
        while k < filtered_lines.len()
            invariant
                k <= filtered_lines.len(),
                indices@.len() == k,
                forall|j: int| 0 <= j < k ==> indices@[j] == filtered_lines@[j].0,
            decreases filtered_lines.len() - k,
        {
            indices.push(filtered_lines[k].0);
            k += 1;
        }
        assert(ints(indices@) =~= pair_indices(filtered_lines@));
        let map = context_map(&lines, &indices, after, before, contents_length);
        assert forall|p: usize| #[trigger] map@.contains_key(p) implies map@[p]@ == text_lines(
            contents@,
        )[p as int] by {
            assert(str_texts(lines@)[p as int] == lines@[p as int]@);
        }
        map
    }

    /// Where the paths to search come from: more than one path is taken as
    /// given, a single one is a pattern to resolve.
    pub fn path_source(&self) -> (source: PathSource)
        ensures
            source == if self.path@.len() > 1 {
                PathSource::AsGiven
            } else {
                PathSource::Resolve
            },
    {
        if self.path.len() > 1 {
            PathSource::AsGiven
        } else {
            PathSource::Resolve
        }
    }

    /// Whether the flags go together: no option beside a counter.
    pub open spec fn valid_commands(&self) -> bool {
        !(self.options.any_set() && self.counters.any_set())
    }

    /// Whether the flags go together: no option beside a counter.
    pub fn validate_commands(&self) -> (valid: bool)
        ensures
            valid == self.valid_commands(),
    {
        !(self.options.is_set() && self.counters.is_set())
    }

    /// Runs the search on one file, in the mode that the flags select.
    ///
    /// A directory and an unreadable file are input errors. Otherwise the
    /// result is the one count (`count`, then `total_count`), the path where
    /// the file is listed (`files_with_matches`), or the lines of the search.
    pub fn execute_single_file_grep(
        reg: Regex,
        file: &FileInput,
        before_context: usize,
        after_context: usize,
        context: usize,
        files_with_matches: bool,
        line_number: bool,
        invert_match: bool,
        only_matching: bool,
        count: bool,
        total_count: bool,
    ) -> (out: Result<Vec<String>, CluErrors>)
        ensures
            lines_result(out) == single_file_output(
                reg,
                *file,
                Context { after_context, before_context, context },
                Options { files_with_matches, line_number, invert_match, only_matching },
                Counters { count, total_count },
            ),
    {
        match &file.state {
            FileState::Directory => {
                let mut reason = file.path.clone();
                reason.append(
                    " is dir. If you want to use grep recursively in a directory, add the -R flag. For more information try --help",
                );
                Err(CluErrors::InputError(reason))
            },
            FileState::Unreadable => {
                let mut reason = file.path.clone();
                reason.append(" cannot be read");
                Err(CluErrors::InputError(reason))
            },
            FileState::Contents(contents) => {
                if count {
                    Ok(Self::count_text(&reg, contents.as_str()))
                } else if total_count {
                    Ok(Self::total_count_text(&reg, contents.as_str()))
                } else if files_with_matches {
                    if Self::files_with_matches_text(&reg, contents.as_str(), invert_match) {
                        let mut listed: Vec<String> = Vec::new();
                        listed.push(file.path.clone());
                        assert(texts(listed@) =~= seq![file.path@]);
                        Ok(listed)
                    } else {
                        let listed: Vec<String> = Vec::new();
                        assert(texts(listed@) =~= Seq::<Seq<char>>::empty());
                        Ok(listed)
                    }
                } else {
                    Ok(
                        Self::search_text(
                            &reg,
                            contents.as_str(),
                            before_context,
                            after_context,
                            context,
                            line_number,
                            invert_match,
                            only_matching,
                        ),
                    )
                }
            },
        }
    }

    /// What the files contribute together, before joining.
    pub open spec fn files_output(&self, files: Seq<FileInput>) -> Result<
        Seq<Seq<char>>,
        ErrorModel,
    > {
        if files.len() == 0 {
            Ok(Seq::empty())
        } else {
            match regex_build(self.pattern@, self.ignore_case) {
                None => Err(ErrorModel::RegexError(self.pattern@)),
                Some(reg) => blocks_upto(
                    reg,
                    files,
                    self.context,
                    self.options,
                    self.counters,
                    files.len() as int,
                ),
            }
        }
    }

    /// The block of one file: nothing where the search gave no line, else a
    /// header and the lines. The header holds the path, and is empty when
    /// files are listed.
    pub fn file_block_lines(&self, reg: Regex, file: &FileInput) -> (out: Result<
        Vec<String>,
        CluErrors,
    >)
        ensures
            lines_result(out) == file_block(reg, *file, self.context, self.options, self.counters),
    {
        let call = Self::execute_single_file_grep(
            reg,
            file,
            self.context.before_context,
            self.context.after_context,
            self.context.context,
            self.options.files_with_matches,
            self.options.line_number,
            self.options.invert_match,
            self.options.only_matching,
            self.counters.count,
            self.counters.total_count,
        );
        match call {
            Err(e) => Err(e),
            Ok(mut call) => {
                if call.len() == 0 {
                    assert(texts(call@) =~= Seq::<Seq<char>>::empty());
                    return Ok(call);
                }
                let mut header = String::new();
                if !self.options.files_with_matches {
                    header.append("\n\t----");
                    header.append(file.path.as_str());
                    header.append("----\n");
                    assert(header@ =~= file_header(file.path@));
                }
                let mut output: Vec<String> = Vec::new();
                output.push(header);
                let ghost lines = texts(call@);
                output.append(&mut call);
                assert(texts(output@) =~= seq![header@] + lines);
                Ok(output)
            },
        }
    }

    /// Runs the search on each file in turn and puts the blocks one after the other.
    ///
    /// With at least one file, a pattern that does not compile is a regex
    /// error. The first file that raises an error fails the whole call. A file
    /// without output contributes nothing; another contributes a header and
    /// its lines.
    pub fn execute_multiple_files_grep(&self, files: Vec<FileInput>) -> (out: Result<
        Vec<String>,
        CluErrors,
    >)
        ensures
            lines_result(out) == self.files_output(files@),
    {
        let mut search: Vec<String> = Vec::new();
        let mut i: usize = 0;
        assert(texts(search@) =~= Seq::<Seq<char>>::empty());
        while i < files.len()
            invariant
                i <= files.len(),
                i > 0 ==> regex_build(self.pattern@, self.ignore_case) is Some,
                i > 0 ==> Ok::<Seq<Seq<char>>, ErrorModel>(texts(search@)) == blocks_upto(
                    regex_build(self.pattern@, self.ignore_case)->0,
                    files@,
                    self.context,
                    self.options,
                    self.counters,
                    i as int,
                ),
                i == 0 ==> texts(search@) == Seq::<Seq<char>>::empty(),
            decreases files.len() - i,
        {
            let reg = match build_regex(self.pattern.as_str(), self.ignore_case) {
                Ok(reg) => reg,
                Err(_) => {
                    return Err(CluErrors::RegexError((*self.pattern).clone()));
                },
            };
            match self.file_block_lines(reg, &files[i]) {
                Err(e) => {
                    proof {
                        lemma_first_error_stands(
                            reg,
                            files@,
                            self.context,
                            self.options,
                            self.counters,
                            i as int + 1,
                            files@.len() as int,
                        );
                    }
                    return Err(e);
                },
                Ok(mut block) => {
                    let ghost earlier = texts(search@);
                    let ghost lines = texts(block@);
                    search.append(&mut block);
                    assert(texts(search@) =~= earlier + lines);
                },
            }
            i += 1;
        }
        Ok(search)
    }

    /// The text that a search over `files` gives, or its error.
    ///
    /// An option beside a counter is an invalid combination, whatever the
    /// files. Otherwise the blocks of the files are joined by line feeds and
    /// trimmed of line feeds at both ends; an empty text is reported as not
    /// found.
    pub open spec fn execute_output(&self, files: Seq<FileInput>) -> Result<Seq<char>, ErrorModel> {
        if !self.valid_commands() {
            Err(ErrorModel::InvalidCommandCombination("grep"@))
        } else {
            match self.files_output(files) {
                Err(e) => Err(e),
                Ok(search) => if trimmed(joined(search)).len() == 0 {
                    Err(ErrorModel::NotFoundError)
                } else {
                    Ok(trimmed(joined(search)))
                },
            }
        }
    }

    /// Searches `files` and gives the text to print.
    pub fn execute(self, files: Vec<FileInput>) -> (out: Result<String, CluErrors>)
        ensures
            text_result(out) == self.execute_output(files@),
    {
        if !self.validate_commands() {
            return Err(CluErrors::InvalidCommandCombination(String::from_str("grep")));
        }
        match self.execute_multiple_files_grep(files) {
            Err(e) => Err(e),
            Ok(lines) => {
                let search = trim_newlines(join_lines(&lines).as_str());
                if search.as_str().is_empty() {
                    Err(CluErrors::NotFoundError)
                } else {
                    Ok(search)
                }
            },
        }
    }
}

} // verus!
