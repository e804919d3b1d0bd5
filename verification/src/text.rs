//! Text helpers: decimal rendering, joining and trimming.

use vstd::prelude::*;
use vstd::string::*;

verus! {

/// The character of a decimal digit.
pub open spec fn digit_char(d: nat) -> char {
    if d == 0 {
        '0'
    } else if d == 1 {
        '1'
    } else if d == 2 {
        '2'
    } else if d == 3 {
        '3'
    } else if d == 4 {
        '4'
    } else if d == 5 {
        '5'
    } else if d == 6 {
        '6'
    } else if d == 7 {
        '7'
    } else if d == 8 {
        '8'
    } else {
        '9'
    }
}

/// The decimal numeral of `n`, without leading zeros.
pub open spec fn decimal(n: nat) -> Seq<char>
    decreases n,
{
    if n < 10 {
        seq![digit_char(n)]
    } else {
        decimal(n / 10).push(digit_char(n % 10))
    }
}

fn digit_str(d: u128) -> (s: &'static str)
    requires
        d < 10,
    ensures
        s@ == seq![digit_char(d as nat)],
{
    proof {
        reveal_strlit("0");
        reveal_strlit("1");
        reveal_strlit("2");
        reveal_strlit("3");
        reveal_strlit("4");
        reveal_strlit("5");
        reveal_strlit("6");
        reveal_strlit("7");
        reveal_strlit("8");
        reveal_strlit("9");
    }
    let s = if d == 0 {
        "0"
    } else if d == 1 {
        "1"
    } else if d == 2 {
        "2"
    } else if d == 3 {
        "3"
    } else if d == 4 {
        "4"
    } else if d == 5 {
        "5"
    } else if d == 6 {
        "6"
    } else if d == 7 {
        "7"
    } else if d == 8 {
        "8"
    } else {
        "9"
    };
    assert(s@ =~= seq![digit_char(d as nat)]);
    s
}

/// Renders `n` in decimal.
pub fn decimal_string(n: u128) -> (s: String)
    ensures
        s@ == decimal(n as nat),
    decreases n,
{
    if n < 10 {
        String::from_str(digit_str(n))
    } else {
        let mut s = decimal_string(n / 10);
        s.append(digit_str(n % 10));
        assert(s@ =~= decimal(n as nat));
        s
    }
}

/// The views of a sequence of owned strings.
pub open spec fn texts(items: Seq<String>) -> Seq<Seq<char>> {
    items.map_values(|s: String| s@)
}

/// The views of a sequence of string slices.
pub open spec fn str_texts(items: Seq<&str>) -> Seq<Seq<char>> {
    items.map_values(|s: &str| s@)
}

/// The first `upto` of `items`, with a line feed between each two.
pub open spec fn joined_upto(items: Seq<Seq<char>>, upto: int) -> Seq<char>
    decreases upto,
{
    if upto <= 0 {
        Seq::empty()
    } else if upto == 1 {
        items[0]
    } else {
        joined_upto(items, upto - 1) + seq!['\n'] + items[upto - 1]
    }
}

/// `items` with a line feed between each two.
pub open spec fn joined(items: Seq<Seq<char>>) -> Seq<char> {
    joined_upto(items, items.len() as int)
}

/// `s` without the line feeds at its end.
pub open spec fn trimmed_end(s: Seq<char>) -> Seq<char>
    decreases s.len(),
{
    if s.len() > 0 && s.last() == '\n' {
        trimmed_end(s.drop_last())
    } else {
        s
    }
}

/// `s` without the line feeds at its start.
pub open spec fn trimmed_start(s: Seq<char>) -> Seq<char>
    decreases s.len(),
{
    if s.len() > 0 && s[0] == '\n' {
        trimmed_start(s.drop_first())
    } else {
        s
    }
}

/// `s` without the line feeds at its end and at its start.
pub open spec fn trimmed(s: Seq<char>) -> Seq<char> {
    trimmed_start(trimmed_end(s))
}

/// Joins `items` with a line feed between each two.
pub fn join_lines(items: &Vec<String>) -> (text: String)
    ensures
        text@ == joined(texts(items@)),
{
    let mut text = String::new();
    let mut i: usize = 0;
    while i < items.len()
        invariant
            i <= items.len(),
            text@ == joined_upto(texts(items@), i as int),
        decreases items.len() - i,
    {
        if i > 0 {
            text.append("\n");
        }
        text.append(items[i].as_str());
        assert(texts(items@)[i as int] == items@[i as int]@);
        proof {
            reveal_strlit("\n");
        }
        assert("\n"@ =~= seq!['\n']);
        assert(text@ =~= joined_upto(texts(items@), i as int + 1));
        i += 1;
    }
    text
}

/// Drops the line feeds at the end and at the start of `text`.
pub fn trim_newlines(text: &str) -> (kept: String)
    ensures
        kept@ == trimmed(text@),
{
    let mut end: usize = text.unicode_len();
    assert(text@.subrange(0, end as int) =~= text@);
    while end > 0 && text.get_char(end - 1) == '\n'
        invariant
            end <= text@.len(),
            trimmed_end(text@) == trimmed_end(text@.subrange(0, end as int)),
        decreases end,
    {
        assert(text@.subrange(0, end as int).drop_last() =~= text@.subrange(0, end as int - 1));
        end -= 1;
    }
    let ghost cut = text@.subrange(0, end as int);
    assert(trimmed_end(text@) == cut);
    let mut start: usize = 0;
    while start < end && text.get_char(start) == '\n'
        invariant
            start <= end <= text@.len(),
            cut == text@.subrange(0, end as int),
            trimmed_start(cut) == trimmed_start(text@.subrange(start as int, end as int)),
        decreases end - start,
    {
        assert(text@.subrange(start as int, end as int).drop_first() =~= text@.subrange(
            start as int + 1,
            end as int,
        ));
        start += 1;
    }
    String::from_str(text.substring_char(start, end))
}

/// Whether `text` starts with the character `first`.
pub fn starts_with_char(text: &str, first: char) -> (starts: bool)
    ensures
        starts == (text@.len() > 0 && text@[0] == first),
{
    !text.is_empty() && text.get_char(0) == first
}

/// A line as it stands before its line feed: one trailing carriage return is dropped.
pub open spec fn without_return(line: Seq<char>) -> Seq<char> {
    if line.len() > 0 && line.last() == '\r' {
        line.drop_last()
    } else {
        line
    }
}

/// The lines of `content` from `start` on, where `start..at` holds no line feed.
pub open spec fn lines_from(content: Seq<char>, start: int, at: int) -> Seq<Seq<char>>
    decreases content.len() - at,
{
    if at >= content.len() {
        if start < content.len() {
            seq![content.subrange(start, content.len() as int)]
        } else {
            Seq::empty()
        }
    } else if content[at] == '\n' {
        seq![without_return(content.subrange(start, at))] + lines_from(content, at + 1, at + 1)
    } else {
        lines_from(content, start, at + 1)
    }
}

/// The lines of a text: it is cut after each line feed, the line feed and a
/// carriage return just before it are dropped, and a last piece without a
/// line feed is a line of its own unless it is empty.
pub open spec fn text_lines(content: Seq<char>) -> Seq<Seq<char>> {
    lines_from(content, 0, 0)
}

/// Calls `str::lines` and collects the slices it yields, which std documents
/// as stated by `text_lines`.
#[verifier::external_body]
pub(crate) fn split_lines<'a>(content: &'a str) -> (lines: Vec<&'a str>)
    ensures
        str_texts(lines@) == text_lines(content@),
{
    content.lines().collect()
}

} // verus!
