//! What holds of every search, proved from the model.

use crate::clu_errors::ErrorModel;
use crate::grep::context::Context;
use crate::grep::counters::Counters;
use crate::grep::model::{
    block, blocks_upto, context_run, context_upto, file_lines, floor_before,
    hit_indices, hit_rows, hit_run, in_window, in_windows, is_context_index, lemma_windows_step,
    lemma_hit_rows_valid, records, records_upto, search_output, selects, single_file_output, valid_indices,
    window_high, window_low, FileInput, FileState, HitModel, LineRecord,
};
use crate::grep::options::Options;
use crate::grep::Grep;
use crate::pattern::{regex_build, regex_matches};
use crate::text::{joined, text_lines, trimmed};
use regex::Regex;
use vstd::prelude::*;

verus! {

/// A positive `context` stands for both sides of the window: the search
/// prints what it prints with `context` lines before and after and nothing
/// else set, whatever `before_context` and `after_context` hold.
pub proof fn lemma_context_overrides(
    reg: Regex,
    lines: Seq<Seq<char>>,
    before_context: usize,
    after_context: usize,
    context: usize,
    line_number: bool,
    invert_match: bool,
    only_matching: bool,
)
    requires
        context > 0,
    ensures
        search_output(
            reg,
            lines,
            before_context,
            after_context,
            context,
            line_number,
            invert_match,
            only_matching,
        ) == search_output(
            reg,
            lines,
            context,
            context,
            0,
            line_number,
            invert_match,
            only_matching,
        ),
{
}

/// An inverted search prints whole lines: `only_matching` changes nothing in it.
pub proof fn lemma_invert_prints_whole_lines(
    reg: Regex,
    lines: Seq<Seq<char>>,
    before_context: usize,
    after_context: usize,
    context: usize,
    line_number: bool,
    only_matching: bool,
)
    ensures
        search_output(
            reg,
            lines,
            before_context,
            after_context,
            context,
            line_number,
            true,
            only_matching,
        ) == search_output(
            reg,
            lines,
            before_context,
            after_context,
            context,
            line_number,
            true,
            false,
        ),
{
}

/// An option together with a counter is an invalid combination, whichever
/// the two flags are and whatever the files hold.
pub proof fn lemma_option_with_counter_is_invalid(grep: Grep, files: Seq<FileInput>)
    requires
        grep.options.any_set(),
        grep.counters.any_set(),
    ensures
        grep.execute_output(files) == Err::<Seq<char>, ErrorModel>(
            ErrorModel::InvalidCommandCombination("grep"@),
        ),
{
}

/// Whether a search of `contents` selects nothing: no line of it, or, where
/// files are listed, not the file.
pub open spec fn nothing_selected(reg: Regex, contents: Seq<char>, options: Options) -> bool {
    if options.files_with_matches {
        regex_matches(reg, contents) == options.invert_match
    } else {
        forall|i: int|
            0 <= i < text_lines(contents).len() ==> !selects(
                reg,
                #[trigger] text_lines(contents)[i],
                options.invert_match,
            )
    }
}

/// Where no line is selected there is no hit.
pub proof fn lemma_no_selection_no_hit(
    reg: Regex,
    lines: Seq<Seq<char>>,
    invert: bool,
    split: bool,
    upto: int,
)
    requires
        upto <= lines.len(),
        forall|i: int| 0 <= i < lines.len() ==> !selects(reg, #[trigger] lines[i], invert),
    ensures
        hit_rows(reg, lines, invert, split, upto).len() == 0,
    decreases upto,
{
    if upto > 0 {
        lemma_no_selection_no_hit(reg, lines, invert, split, upto - 1);
    }
}

/// Where every file gives no line, the files together give none.
pub proof fn lemma_empty_blocks(
    reg: Regex,
    files: Seq<FileInput>,
    context: Context,
    options: Options,
    counters: Counters,
    upto: int,
)
    requires
        upto <= files.len(),
        forall|i: int|
            0 <= i < files.len() ==> #[trigger] single_file_output(
                reg,
                files[i],
                context,
                options,
                counters,
            ) == Ok::<Seq<Seq<char>>, ErrorModel>(Seq::empty()),
    ensures
        blocks_upto(reg, files, context, options, counters, upto) == Ok::<
            Seq<Seq<char>>,
            ErrorModel,
        >(Seq::empty()),
    decreases upto,
{
    if upto > 0 {
        lemma_empty_blocks(reg, files, context, options, counters, upto - 1);
        assert(single_file_output(reg, files[upto - 1], context, options, counters) == Ok::<
            Seq<Seq<char>>,
            ErrorModel,
        >(Seq::empty()));
        assert(Seq::<Seq<char>>::empty() + Seq::<Seq<char>>::empty() =~= Seq::<Seq<char>>::empty());
    }
}

/// A search without a counter that selects nothing is reported as not found:
/// with no file at all, or with readable files none of which holds a
/// selected line (or, where files are listed, none of which is listed).
pub proof fn lemma_nothing_selected_is_not_found(grep: Grep, files: Seq<FileInput>)
    requires
        grep.valid_commands(),
        !grep.counters.count,
        !grep.counters.total_count,
        files.len() > 0 ==> regex_build(grep.pattern@, grep.ignore_case) is Some,
        forall|i: int|
            0 <= i < files.len() ==> match (#[trigger] files[i]).state {
                FileState::Contents(contents) => nothing_selected(
                    regex_build(grep.pattern@, grep.ignore_case)->0,
                    contents@,
                    grep.options,
                ),
                _ => false,
            },
    ensures
        grep.execute_output(files) == Err::<Seq<char>, ErrorModel>(ErrorModel::NotFoundError),
{
    let none = Seq::<Seq<char>>::empty();
    if files.len() > 0 {
        let reg = regex_build(grep.pattern@, grep.ignore_case)->0;
        assert forall|i: int| 0 <= i < files.len() implies #[trigger] single_file_output(
            reg,
            files[i],
            grep.context,
            grep.options,
            grep.counters,
        ) == Ok::<Seq<Seq<char>>, ErrorModel>(Seq::empty()) by {
            let file = files[i];
            match file.state {
                FileState::Contents(contents) => {
                    if !grep.options.files_with_matches {
                        let lines = text_lines(contents@);
                        let split = grep.options.only_matching && !grep.options.invert_match;
                        lemma_no_selection_no_hit(
                            reg,
                            lines,
                            grep.options.invert_match,
                            split,
                            lines.len() as int,
                        );
                        let hits = hit_rows(
                            reg,
                            lines,
                            grep.options.invert_match,
                            split,
                            lines.len() as int,
                        );
                        assert(hits.len() == 0);
                        assert(file_lines(
                            reg,
                            file.path@,
                            contents@,
                            grep.context,
                            grep.options,
                            grep.counters,
                        ) =~= none);
                    }
                },
                _ => {},
            }
        }
        lemma_empty_blocks(
            reg,
            files,
            grep.context,
            grep.options,
            grep.counters,
            files.len() as int,
        );
    }
    assert(grep.files_output(files) == Ok::<Seq<Seq<char>>, ErrorModel>(none));
    assert(joined(none) =~= Seq::<char>::empty());
    assert(trimmed(Seq::<char>::empty()) =~= Seq::<char>::empty());
}

/// Whether a line with the index `p` stands among `recs`.
pub open spec fn occurs(recs: Seq<LineRecord>, p: int) -> bool {
    exists|i: int| 0 <= i < recs.len() && #[trigger] recs[i].index == p
}

/// Whether the indices of `recs` ascend strictly.
pub open spec fn ascends(recs: Seq<LineRecord>) -> bool {
    forall|i: int, j: int| 0 <= i < j < recs.len() ==> recs[i].index < recs[j].index
}

/// Whether the record `r` tells of its line what holds of it: a line that is
/// no hit is marked as context and printed as it is; a hit is not marked, and
/// is printed as the one piece that the hit holds.
pub open spec fn tells_of(r: LineRecord, lines: Seq<Seq<char>>, hits: Seq<HitModel>) -> bool {
    if r.is_context {
        !hit_indices(hits).contains(r.index) && r.text == lines[r.index]
    } else {
        exists|k: int| 0 <= k < hits.len() && #[trigger] hits[k].index == r.index && r.text == hits[k].parts[0]
    }
}

/// Whether the line `p` lies after the hit that follows the hit number `k`
/// and still in the window behind the hit number `k`.
pub open spec fn reaches_past(idx: Seq<int>, after: int, count: int, k: int, p: int) -> bool {
    0 <= k && k + 1 < idx.len() && idx[k + 1] < p <= idx[k] + after && p < count
}

/// Whether no window reaches past a later hit to a context line: a line
/// that lies after the next hit and still in the window behind a hit is
/// itself a hit.
pub open spec fn orderly(idx: Seq<int>, after: int, count: int) -> bool {
    forall|k: int, p: int| #[trigger] reaches_past(idx, after, count, k, p) ==> idx.contains(p)
}

/// A run of context lines holds each line of its range that lies above the
/// floor and is no hit, once, in ascending order.
pub proof fn lemma_context_run(lines: Seq<Seq<char>>, idx: Seq<int>, floor: int, lo: int, hi: int)
    ensures
        ascends(context_run(lines, idx, floor, lo, hi)),
        forall|i: int|
            0 <= i < context_run(lines, idx, floor, lo, hi).len() ==> {
                let r = #[trigger] context_run(lines, idx, floor, lo, hi)[i];
                lo <= r.index < hi && r.index > floor && !idx.contains(r.index) && r.is_context
                    && r.text == lines[r.index]
            },
        forall|p: int|
            lo <= p < hi && p > floor && !idx.contains(p) ==> #[trigger] occurs(
                context_run(lines, idx, floor, lo, hi),
                p,
            ),
    decreases hi - lo,
{
    if lo < hi {
        lemma_context_run(lines, idx, floor, lo, hi - 1);
        let rest = context_run(lines, idx, floor, lo, hi - 1);
        let all = context_run(lines, idx, floor, lo, hi);
        assert forall|p: int| lo <= p < hi && p > floor && !idx.contains(p) implies occurs(
            all,
            p,
        ) by {
            if p < hi - 1 {
                assert(occurs(rest, p));
                let i = choose|i: int| 0 <= i < rest.len() && #[trigger] rest[i].index == p;
                assert(all[i].index == p);
            } else {
                assert(all[all.len() - 1].index == p);
            }
        }
    }
}

/// What one hit contributes: its own line and the context lines of its window
/// that lie above the end of the window before, in ascending order.
pub proof fn lemma_block(lines: Seq<Seq<char>>, hits: Seq<HitModel>, k: int, before: int, after: int)
    requires
        valid_indices(hit_indices(hits), lines.len() as int),
        0 <= k < hits.len(),
        hits[k].parts.len() == 1,
        0 <= before,
        0 <= after,
    ensures
        ascends(block(lines, hits, k, before, after)),
        forall|i: int|
            0 <= i < block(lines, hits, k, before, after).len() ==> {
                let r = #[trigger] block(lines, hits, k, before, after)[i];
                let p = r.index;
                &&& in_window(hit_indices(hits), before, after, lines.len() as int, k, p)
                &&& (p == hits[k].index || (p > floor_before(hit_indices(hits), k, after)
                    && !hit_indices(hits).contains(p)))
                &&& tells_of(r, lines, hits)
            },
        forall|p: int|
            (p == hits[k].index || (in_window(
                hit_indices(hits),
                before,
                after,
                lines.len() as int,
                k,
                p,
            ) && p > floor_before(hit_indices(hits), k, after) && !hit_indices(hits).contains(p)))
                ==> #[trigger] occurs(block(lines, hits, k, before, after), p),
{
    let idx = hit_indices(hits);
    let n = lines.len() as int;
    let h = hits[k].index;
    let floor = floor_before(idx, k, after);
    let low = window_low(h, before);
    let high = window_high(h, after, n);
    let c1 = context_run(lines, idx, floor, low, h);
    let hr = hit_run(hits[k], 1);
    let c2 = context_run(lines, idx, floor, h + 1, high + 1);
    let all = block(lines, hits, k, before, after);
    assert(idx[k] == h);
    assert(idx.contains(h));
    assert(all =~= c1 + hr + c2);
    lemma_context_run(lines, idx, floor, low, h);
    lemma_context_run(lines, idx, floor, h + 1, high + 1);
    assert forall|i: int| 0 <= i < all.len() implies {
        let p = (#[trigger] all[i]).index;
        &&& in_window(idx, before, after, n, k, p)
        &&& (p == h || (p > floor && !idx.contains(p)))
        &&& tells_of(all[i], lines, hits)
        &&& (i < c1.len() ==> p < h)
        &&& (i == c1.len() ==> p == h)
        &&& (i > c1.len() ==> p > h)
    } by {
        if i < c1.len() {
            assert(all[i] == c1[i]);
        } else if i == c1.len() {
            assert(all[i] == hr[0]);
        } else {
            assert(all[i] == c2[i - c1.len() - 1]);
        }
    }
    assert forall|i: int, j: int| 0 <= i < j < all.len() implies all[i].index < all[j].index by {
        if j < c1.len() {
            assert(all[i] == c1[i] && all[j] == c1[j]);
        } else if i > c1.len() {
            assert(all[i] == c2[i - c1.len() - 1] && all[j] == c2[j - c1.len() - 1]);
        } else {
            assert(all[i].index <= h);
            assert(all[j].index >= h);
            assert(in_window(idx, before, after, n, k, all[i].index));
            assert(in_window(idx, before, after, n, k, all[j].index));
        }
    }
    assert forall|p: int|
        (p == h || (in_window(idx, before, after, n, k, p) && p > floor && !idx.contains(
            p,
        ))) implies occurs(all, p) by {
        if p == h {
            assert(all[c1.len() as int].index == h);
        } else if p < h {
            assert(occurs(c1, p));
            let i = choose|i: int| 0 <= i < c1.len() && #[trigger] c1[i].index == p;
            assert(all[i].index == p);
        } else {
            assert(occurs(c2, p));
            let i = choose|i: int| 0 <= i < c2.len() && #[trigger] c2[i].index == p;
            assert(all[c1.len() + 1 + i].index == p);
        }
    }
}

/// What the first `k` hits contribute: each of these hits and each context
/// line of their windows, once, in ascending order, all before the next hit.
pub proof fn lemma_records_upto(
    lines: Seq<Seq<char>>,
    hits: Seq<HitModel>,
    k: int,
    before: int,
    after: int,
)
    requires
        valid_indices(hit_indices(hits), lines.len() as int),
        forall|j: int| 0 <= j < hits.len() ==> (#[trigger] hits[j]).parts.len() == 1,
        orderly(hit_indices(hits), after, lines.len() as int),
        0 <= k <= hits.len(),
        0 <= before,
        0 <= after,
    ensures
        ascends(records_upto(lines, hits, k, before, after)),
        forall|i: int|
            0 <= i < records_upto(lines, hits, k, before, after).len() ==> {
                let p = (#[trigger] records_upto(lines, hits, k, before, after)[i]).index;
                &&& tells_of(records_upto(lines, hits, k, before, after)[i], lines, hits)
                &&& p <= floor_before(hit_indices(hits), k, after)
                &&& (k < hits.len() ==> p < hits[k].index)
                &&& ((exists|j: int| 0 <= j < k && hit_indices(hits)[j] == p) || context_upto(
                    hit_indices(hits),
                    before,
                    after,
                    lines.len() as int,
                    lines.len() as int,
                    k,
                    p,
                ))
            },
        forall|p: int|
            ((exists|j: int| 0 <= j < k && hit_indices(hits)[j] == p) || context_upto(
                hit_indices(hits),
                before,
                after,
                lines.len() as int,
                lines.len() as int,
                k,
                p,
            )) ==> #[trigger] occurs(records_upto(lines, hits, k, before, after), p),
    decreases k,
{
    let idx = hit_indices(hits);
    let n = lines.len() as int;
    if k > 0 {
        let m = k - 1;
        lemma_records_upto(lines, hits, m, before, after);
        lemma_block(lines, hits, m, before, after);
        let u = records_upto(lines, hits, m, before, after);
        let b = block(lines, hits, m, before, after);
        let all = records_upto(lines, hits, k, before, after);
        let h = hits[m].index;
        let floor = floor_before(idx, m, after);
        assert(all =~= u + b);
        assert(idx[m] == h);
        if m > 0 {
            assert(idx[m - 1] < idx[m]);
        }
        if k < hits.len() {
            assert(idx[m] < idx[k]);
            assert(idx[k] == hits[k].index);
        }
        assert forall|i: int| 0 <= i < all.len() implies {
            let p = (#[trigger] all[i]).index;
            &&& tells_of(all[i], lines, hits)
            &&& p <= floor_before(idx, k, after)
            &&& (k < hits.len() ==> p < hits[k].index)
            &&& ((exists|j: int| 0 <= j < k && idx[j] == p) || context_upto(
                idx,
                before,
                after,
                n,
                n,
                k,
                p,
            ))
            &&& (i < u.len() ==> p <= floor && p < h)
            &&& (i >= u.len() ==> p == h || p > floor)
        } by {
            let p = all[i].index;
            lemma_windows_step(idx, before, after, n, m, p);
            if i < u.len() {
                assert(all[i] == u[i]);
                if exists|j: int| 0 <= j < m && idx[j] == p {
                    let j = choose|j: int| 0 <= j < m && idx[j] == p;
                    assert(0 <= j < k && idx[j] == p);
                }
            } else {
                assert(all[i] == b[i - u.len()]);
                assert(in_window(idx, before, after, n, m, p));
                if p == h {
                    assert(0 <= m < k && idx[m] == p);
                } else {
                    if k < hits.len() && p >= hits[k].index {
                        assert(reaches_past(idx, after, n, m, p));
                    }
                }
            }
        }
        assert forall|i: int, j: int| 0 <= i < j < all.len() implies all[i].index < all[j].index by {
            if j < u.len() {
                assert(all[i] == u[i] && all[j] == u[j]);
            } else if i >= u.len() {
                assert(all[i] == b[i - u.len()] && all[j] == b[j - u.len()]);
            } else {
                assert(all[i].index <= floor && all[i].index < h);
                assert(all[j].index == h || all[j].index > floor);
            }
        }
        assert forall|p: int|
            ((exists|j: int| 0 <= j < k && idx[j] == p) || context_upto(
                idx,
                before,
                after,
                n,
                n,
                k,
                p,
            )) implies occurs(all, p) by {
            lemma_windows_step(idx, before, after, n, m, p);
            let earlier = (exists|j: int| 0 <= j < m && idx[j] == p) || context_upto(
                idx,
                before,
                after,
                n,
                n,
                m,
                p,
            );
            let own = p == h || (in_window(idx, before, after, n, m, p) && p > floor
                && !idx.contains(p));
            if exists|j: int| 0 <= j < k && idx[j] == p {
                let j = choose|j: int| 0 <= j < k && idx[j] == p;
                if j < m {
                    assert(earlier);
                } else {
                    assert(p == h);
                }
            } else {
                assert(context_upto(idx, before, after, n, n, k, p));
                if !in_windows(idx, before, after, n, m, p) {
                    assert(in_window(idx, before, after, n, m, p));
                    if p <= floor {
                        assert(m > 0);
                        assert(in_window(idx, before, after, n, m - 1, p));
                        assert(in_windows(idx, before, after, n, m, p));
                    }
                    assert(own);
                } else {
                    assert(earlier);
                }
            }
            assert(earlier || own);
            if earlier {
                assert(occurs(u, p));
                let i = choose|i: int| 0 <= i < u.len() && #[trigger] u[i].index == p;
                assert(all[i].index == p);
            } else {
                assert(occurs(b, p));
                let i = choose|i: int| 0 <= i < b.len() && #[trigger] b[i].index == p;
                assert(all[u.len() + i].index == p);
            }
        }
    }
}

/// Each line that a search touches is printed once, in ascending order.
///
/// Where every hit is printed as one line and no window reaches past a later
/// hit to a context line, the indices of the output ascend strictly, and a
/// line stands in the output exactly if it is a hit or lies in the window of
/// one. Windows of two hits that overlap thus give each of their lines once.
pub proof fn lemma_each_line_once_ascending(
    lines: Seq<Seq<char>>,
    hits: Seq<HitModel>,
    before: int,
    after: int,
)
    requires
        valid_indices(hit_indices(hits), lines.len() as int),
        forall|j: int| 0 <= j < hits.len() ==> (#[trigger] hits[j]).parts.len() == 1,
        orderly(hit_indices(hits), after, lines.len() as int),
        0 <= before,
        0 <= after,
    ensures
        ascends(records(lines, hits, before, after)),
        forall|i: int|
            0 <= i < records(lines, hits, before, after).len() ==> tells_of(
                #[trigger] records(lines, hits, before, after)[i],
                lines,
                hits,
            ),
        forall|p: int|
            #[trigger] occurs(records(lines, hits, before, after), p) <==> (hit_indices(
                hits,
            ).contains(p)
                || is_context_index(
                hit_indices(hits),
                before,
                after,
                lines.len() as int,
                lines.len() as int,
                p,
            )),
{
    let idx = hit_indices(hits);
    let all = records(lines, hits, before, after);
    lemma_records_upto(lines, hits, hits.len() as int, before, after);
    assert forall|p: int| occurs(all, p) implies (idx.contains(p) || is_context_index(
        idx,
        before,
        after,
        lines.len() as int,
        lines.len() as int,
        p,
    )) by {
        let i = choose|i: int| 0 <= i < all.len() && #[trigger] all[i].index == p;
        if exists|j: int| 0 <= j < hits.len() && idx[j] == p {
            let j = choose|j: int| 0 <= j < hits.len() && idx[j] == p;
            assert(idx.contains(p));
        }
    }
    assert forall|p: int| idx.contains(p) implies occurs(all, p) by {
        let j = choose|j: int| 0 <= j < idx.len() && idx[j] == p;
        assert(0 <= j < hits.len() && idx[j] == p);
    }
}

/// Without splitting, each selected line among the first `upto` is a hit
/// with one piece, the line itself, and nothing else is a hit.
pub proof fn lemma_whole_line_hits(reg: Regex, lines: Seq<Seq<char>>, invert: bool, upto: int)
    requires
        0 <= upto <= lines.len(),
    ensures
        forall|j: int|
            0 <= j < hit_rows(reg, lines, invert, false, upto).len() ==> {
                let hit = #[trigger] hit_rows(reg, lines, invert, false, upto)[j];
                &&& hit.parts == seq![lines[hit.index]]
                &&& 0 <= hit.index < upto
                &&& selects(reg, lines[hit.index], invert)
            },
        forall|p: int|
            0 <= p < upto && selects(reg, lines[p], invert) ==> #[trigger] hit_indices(
                hit_rows(reg, lines, invert, false, upto),
            ).contains(p),
    decreases upto,
{
    if upto > 0 {
        lemma_whole_line_hits(reg, lines, invert, upto - 1);
        let rest = hit_rows(reg, lines, invert, false, upto - 1);
        let all = hit_rows(reg, lines, invert, false, upto);
        assert forall|j: int| 0 <= j < all.len() implies {
            let hit = #[trigger] all[j];
            &&& hit.parts == seq![lines[hit.index]]
            &&& 0 <= hit.index < upto
            &&& selects(reg, lines[hit.index], invert)
        } by {
            if j < rest.len() {
                assert(all[j] == rest[j]);
            }
        }
        assert forall|p: int| 0 <= p < upto && selects(reg, lines[p], invert) implies #[trigger] hit_indices(
            all,
        ).contains(p) by {
            if p < upto - 1 {
                assert(hit_indices(rest).contains(p));
                let j = choose|j: int| 0 <= j < hit_indices(rest).len() && hit_indices(rest)[j] == p;
                assert(hit_indices(all)[j] == p);
            } else {
                assert(hit_indices(all)[all.len() - 1] == p);
            }
        }
    }
}

/// A search that prints whole lines prints each line that it touches once,
/// in ascending order.
///
/// Where the selected lines are not split into their matches and no window
/// reaches past a later hit to a context line, the indices of the output
/// ascend strictly, and a line is printed exactly if it is selected or lies in
/// the window of a selected line.
pub proof fn lemma_search_prints_each_line_once(
    reg: Regex,
    lines: Seq<Seq<char>>,
    before: usize,
    after: usize,
    invert_match: bool,
)
    requires
        orderly(
            hit_indices(hit_rows(reg, lines, invert_match, false, lines.len() as int)),
            after as int,
            lines.len() as int,
        ),
    ensures
        ascends(
            records(
                lines,
                hit_rows(reg, lines, invert_match, false, lines.len() as int),
                before as int,
                after as int,
            ),
        ),
        forall|i: int|
            0 <= i < records(
                lines,
                hit_rows(reg, lines, invert_match, false, lines.len() as int),
                before as int,
                after as int,
            ).len() ==> {
                let r = #[trigger] records(
                    lines,
                    hit_rows(reg, lines, invert_match, false, lines.len() as int),
                    before as int,
                    after as int,
                )[i];
                &&& 0 <= r.index < lines.len()
                &&& r.text == lines[r.index]
                &&& r.is_context == !selects(reg, lines[r.index], invert_match)
            },
        forall|p: int|
            occurs(
                records(
                    lines,
                    hit_rows(reg, lines, invert_match, false, lines.len() as int),
                    before as int,
                    after as int,
                ),
                p,
            ) <==> ((0 <= p < lines.len() && selects(reg, lines[p], invert_match))
                || is_context_index(
                hit_indices(hit_rows(reg, lines, invert_match, false, lines.len() as int)),
                before as int,
                after as int,
                lines.len() as int,
                lines.len() as int,
                p,
            )),
{
    let n = lines.len() as int;
    let hits = hit_rows(reg, lines, invert_match, false, n);
    let idx = hit_indices(hits);
    lemma_hit_rows_valid(reg, lines, invert_match, false, n);
    lemma_whole_line_hits(reg, lines, invert_match, n);
    lemma_each_line_once_ascending(lines, hits, before as int, after as int);
    let recs = records(lines, hits, before as int, after as int);
    assert forall|i: int| 0 <= i < recs.len() implies {
        let r = #[trigger] recs[i];
        &&& 0 <= r.index < n
        &&& r.text == lines[r.index]
        &&& r.is_context == !selects(reg, lines[r.index], invert_match)
    } by {
        let r = recs[i];
        assert(tells_of(r, lines, hits));
        assert(occurs(recs, r.index));
        if r.is_context {
            if selects(reg, lines[r.index], invert_match) {
                assert(idx.contains(r.index));
            }
        } else {
            let k = choose|k: int|
                0 <= k < hits.len() && #[trigger] hits[k].index == r.index && r.text
                    == hits[k].parts[0];
            assert(hits[k].parts == seq![lines[hits[k].index]]);
        }
    }
    assert forall|p: int| #[trigger]
        occurs(recs, p) <==> ((0 <= p < n && selects(reg, lines[p], invert_match))
            || is_context_index(idx, before as int, after as int, n, n, p)) by {
        if idx.contains(p) {
            let j = choose|j: int| 0 <= j < idx.len() && idx[j] == p;
            assert(hits[j].index == p);
        }
        if 0 <= p < n && selects(reg, lines[p], invert_match) {
            assert(idx.contains(p));
        }
    }
}

} // verus!
