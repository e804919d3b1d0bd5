use amazing_clu::clu_errors::CluErrors;
use amazing_clu::grep::context::Context;
use amazing_clu::grep::counters::Counters;
use amazing_clu::grep::model::{FileInput, FileState, Hit};
use amazing_clu::grep::options::Options;
use amazing_clu::grep::{
    context_map, contains_index, emit_lines, indices_of, select_hits, Grep, PathSource,
};
use regex::Regex;
use std::collections::HashMap;
use std::path::PathBuf;

const SAMPLE: &str = "Hey you\nHow are you? Who are you?\nI'm grep\nNice to meet you";
const HIDDEN: &str = "I'm a hidden file created to test grep!";

fn readable(path: &str, contents: &str) -> FileInput {
    FileInput { path: path.to_string(), state: FileState::Contents(contents.to_string()) }
}

fn request(pattern: &str, ignore_case: bool, context: Context, options: Options, counters: Counters) -> Grep {
    Grep {
        pattern: Box::new(pattern.to_string()),
        path: vec![],
        dereference_recursive: false,
        ignore_case,
        hidden_items: false,
        context,
        options,
        counters,
    }
}

fn no_context() -> Context {
    Context { after_context: 0, before_context: 0, context: 0 }
}

fn no_options() -> Options {
    Options { files_with_matches: false, line_number: false, invert_match: false, only_matching: false }
}

fn no_counters() -> Counters {
    Counters { count: false, total_count: false }
}

fn strings(items: &[&str]) -> Vec<String> {
    items.iter().map(|item| item.to_string()).collect()
}

#[test]
fn execute_multiple_files_grep_test() {
    let mut pathbuf = PathBuf::new();
    pathbuf.push(".");
    pathbuf.push("tests");
    pathbuf.push("grep_files");
    let mut pathbuf2 = pathbuf.clone();
    pathbuf.push("sample_text.txt");
    pathbuf2.push(".hidden_text.txt");
    let files = vec![
        readable(pathbuf.to_str().unwrap(), SAMPLE),
        readable(pathbuf2.to_str().unwrap(), HIDDEN),
    ];

    // Regex error
    let grep = Grep {
        pattern: Box::new("[a-z+".to_string()),
        path: vec![],
        dereference_recursive: false,
        ignore_case: false,
        hidden_items: false,
        context: Context { after_context: 0, before_context: 0, context: 0 },
        options: Options { files_with_matches: false, line_number: false, invert_match: false, only_matching: false },
        counters: Counters { count: true, total_count: false },
    };
    assert_eq!(
        CluErrors::RegexError(grep.pattern.to_string()),
        grep.execute_multiple_files_grep(files.clone()).unwrap_err()
    );

    // No case insensitive succeed
    let grep = Grep {
        pattern: Box::new("Grep".to_string()),
        path: vec![],
        dereference_recursive: false,
        ignore_case: false,
        hidden_items: false,
        context: Context { after_context: 0, before_context: 0, context: 0 },
        options: Options { files_with_matches: false, line_number: false, invert_match: false, only_matching: false },
        counters: Counters { count: true, total_count: false },
    };
    let executed = grep.execute_multiple_files_grep(files.clone()).unwrap();
    assert_eq!(4, executed.len());
    assert_eq!(2, executed.iter().filter(|item| **item == "0".to_string()).count());

    // Same test but case insensitive will contain 1 twice
    let grep = Grep {
        pattern: Box::new("Grep".to_string()),
        path: vec![],
        dereference_recursive: false,
        ignore_case: true,
        hidden_items: false,
        context: Context { after_context: 0, before_context: 0, context: 0 },
        options: Options { files_with_matches: false, line_number: false, invert_match: false, only_matching: false },
        counters: Counters { count: true, total_count: false },
    };
    let executed = grep.execute_multiple_files_grep(files.clone()).unwrap();
    assert_eq!(4, executed.len());
    assert_eq!(2, executed.iter().filter(|item| **item == "1".to_string()).count());
}

#[test]
fn execute_single_file_grep_test() {
    let reg = Regex::new("grep").unwrap();

    // Trying to execute in a dir
    let mut pathbuf = PathBuf::new();
    pathbuf.push(".");
    pathbuf.push("tests");
    let dir = FileInput { path: pathbuf.to_str().unwrap().to_string(), state: FileState::Directory };
    assert_eq!(
        CluErrors::InputError(format!(
            "{} is dir. If you want to use grep recursively in a directory, add the -R flag. For more information try --help",
            pathbuf.to_str().unwrap().to_string()
        )),
        Grep::execute_single_file_grep(reg.clone(), &dir, 0, 0, 0, false, false, false, false, false, false)
            .unwrap_err()
    );

    // Trying to read something unexistent
    let mut pathbuf = PathBuf::new();
    pathbuf.push(".");
    pathbuf.push("tests");
    pathbuf.push("text.txt");
    let missing = FileInput { path: pathbuf.to_str().unwrap().to_string(), state: FileState::Unreadable };
    assert_eq!(
        CluErrors::InputError(format!("{} cannot be read", pathbuf.to_str().unwrap().to_string())),
        Grep::execute_single_file_grep(reg.clone(), &missing, 0, 0, 0, false, false, false, false, false, false)
            .unwrap_err()
    );

    // Successful call
    let mut pathbuf = PathBuf::new();
    pathbuf.push(".");
    pathbuf.push("tests");
    pathbuf.push("grep_files");
    pathbuf.push("sample_text.txt");
    let file = readable(pathbuf.to_str().unwrap(), SAMPLE);
    assert_eq!(
        vec!["2-How are you? Who are you?".to_string(), "3:I'm grep".to_string(), "4-Nice to meet you".to_string()],
        Grep::execute_single_file_grep(reg.clone(), &file, 0, 0, 1, false, true, false, false, false, false).unwrap()
    );
}

#[test]
fn search_test() {
    let reg = Regex::new("grep").unwrap();
    let contents = "Hey you\nHow are you? Who are you?\nI'm grep\nNice to meet you";
    // Without flags
    assert_eq!(vec!["I'm grep".to_string()], Grep::search(reg.clone(), contents.to_string(), 0, 0, 0, false, false, false));
    // Before context to 1
    assert_eq!(vec!["How are you? Who are you?".to_string(), "I'm grep".to_string()], Grep::search(reg.clone(), contents.to_string(), 1, 0, 0, false, false, false));
    // After context to 1
    assert_eq!(vec!["I'm grep".to_string(), "Nice to meet you".to_string()], Grep::search(reg.clone(), contents.to_string(), 0, 1, 0, false, false, false));
    // Before and after contect to 2
    assert_eq!(contents.split("\n").map(|item| item.to_string()).collect::<Vec<String>>(), Grep::search(reg.clone(), contents.to_string(), 2, 2, 0, false, false, false));
    // Context to 1
    assert_eq!(vec!["How are you? Who are you?".to_string(), "I'm grep".to_string(), "Nice to meet you".to_string()], Grep::search(reg.clone(), contents.to_string(), 0, 0, 1, false, false, false));
    // Before and after context to 2 but overriden by context to 1
    assert_eq!(vec!["How are you? Who are you?".to_string(), "I'm grep".to_string(), "Nice to meet you".to_string()], Grep::search(reg.clone(), contents.to_string(), 2, 2, 1, false, false, false));
    // Line number flag activated
    assert_eq!(vec!["3:I'm grep".to_string()], Grep::search(reg.clone(), contents.to_string(), 0, 0, 0, true, false, false));
    // Line number flag + context
    assert_eq!(vec!["2-How are you? Who are you?".to_string(), "3:I'm grep".to_string(), "4-Nice to meet you".to_string()], Grep::search(reg.clone(), contents.to_string(), 0, 0, 1, true, false, false));
    // Invert match flag activated
    assert_eq!(vec!["Hey you".to_string(), "How are you? Who are you?".to_string(), "Nice to meet you".to_string()], Grep::search(reg.clone(), contents.to_string(), 0, 0, 0, false, true, false));
    // Line number + invert_match
    assert_eq!(vec!["1:Hey you".to_string(), "2:How are you? Who are you?".to_string(), "4:Nice to meet you".to_string()], Grep::search(reg.clone(), contents.to_string(), 0, 0, 0, true, true, false));
    // Line number + invert_match + context
    assert_eq!(vec!["1:Hey you".to_string(), "2:How are you? Who are you?".to_string(), "3-I'm grep".to_string(), "4:Nice to meet you".to_string()], Grep::search(reg.clone(), contents.to_string(), 0, 0, 1, true, true, false));
    // Only_matching flag
    assert_eq!(vec!["grep".to_string()], Grep::search(reg.clone(), contents.to_string(), 0, 0, 0, false, false, true));
    // Only_matching + context
    assert_eq!(vec!["How are you? Who are you?".to_string(), "grep".to_string(), "Nice to meet you".to_string()], Grep::search(reg.clone(), contents.to_string(), 0, 0, 1, false, false, true));
    // Only_matching + line_number
    assert_eq!(vec!["3:grep".to_string()], Grep::search(reg.clone(), contents.to_string(), 0, 0, 0, true, false, true));
    // Only_matching + context + line_number
    assert_eq!(vec!["2-How are you? Who are you?".to_string(), "3:grep".to_string(), "4-Nice to meet you".to_string()], Grep::search(reg.clone(), contents.to_string(), 0, 0, 1, true, false, true));
    // Only_matching + invert_match -> Invert match override only_matching
    assert_eq!(vec!["Hey you".to_string(), "How are you? Who are you?".to_string(), "Nice to meet you".to_string()], Grep::search(reg.clone(), contents.to_string(), 0, 0, 0, false, true, true));
}

#[test]
fn count_test() {
    let contents = "Hey you\nHow are you? Who are you?\nI'm grep\nNice to meet you";
    let reg1 = Regex::new("you").unwrap();
    let reg2 = Regex::new(r"[A-Z][a-z]").unwrap();

    assert_eq!(vec![String::from("3")], Grep::count(reg1, contents.to_string()));
    assert_eq!(vec![String::from("3")], Grep::count(reg2, contents.to_string()));
}

#[test]
fn total_count_test() {
    let contents = "Hey you\nHow are you? Who are you?\nI'm grep\nNice to meet you";
    let reg1 = Regex::new("you").unwrap();
    let reg2 = Regex::new(r"[A-Z][a-z]").unwrap();
    assert_eq!(vec![String::from("4")], Grep::total_count(reg1, contents.to_string()));
    assert_eq!(vec![String::from("4")], Grep::total_count(reg2, contents.to_string()));
}

#[test]
fn files_with_matches_test() {
    let contents = "Hey you\nHow are you? Who are you?\nI'm grep\nNice to meet you";
    let contents2 = "Hey";
    let reg = Regex::new("you").unwrap();
    assert_eq!(true, Grep::files_with_matches(reg.clone(), contents.to_string(), false));
    assert_eq!(false, Grep::files_with_matches(reg.clone(), contents.to_string(), true));
    assert_eq!(false, Grep::files_with_matches(reg.clone(), contents2.to_string(), false));
    assert_eq!(true, Grep::files_with_matches(reg, contents2.to_string(), true));
}

#[test]
fn context_lines_test() {
    let contents = "Hey you\nHow are you? Who are you?\nI'm grep\nNice to meet you";
    let filtered_lines = vec![(2 as usize, "I'm grep")];

    // Before test
    assert_eq!(HashMap::from([(1 as usize, "How are you? Who are you?")]), Grep::context_lines(contents, &filtered_lines, 0, 1, 4));
    // After test
    assert_eq!(HashMap::from([(3 as usize, "Nice to meet you")]), Grep::context_lines(contents, &filtered_lines, 1, 0, 4));
    // Before + after test
    assert_eq!(HashMap::from([(0, "Hey you"), (1, "How are you? Who are you?"), (3, "Nice to meet you")]), Grep::context_lines(contents, &filtered_lines, 1, 2, 4));
}

#[test]
fn output_search_lines_test() {
    assert_eq!("Hey".to_string(), Grep::output_search_lines(0, "Hey", false, false));
    assert_eq!("Hey".to_string(), Grep::output_search_lines(0, "Hey", true, false));
    assert_eq!("1:Hey".to_string(), Grep::output_search_lines(0, "Hey", false, true));
    assert_eq!("1-Hey".to_string(), Grep::output_search_lines(0, "Hey", true, true));
}

#[test]
fn validate_commands_test() {
    let no_options_no_counters = Grep {
        pattern: Box::new(String::new()),
        path: vec![],
        dereference_recursive: false,
        ignore_case: false,
        hidden_items: false,
        context: Context { after_context: 0, before_context: 0, context: 0 },
        options: Options { files_with_matches: false, line_number: false, invert_match: false, only_matching: false },
        counters: Counters { count: false, total_count: false },
    };
    let only_options = Grep {
        pattern: Box::new(String::new()),
        path: vec![],
        dereference_recursive: false,
        ignore_case: false,
        hidden_items: false,
        context: Context { after_context: 0, before_context: 0, context: 0 },
        options: Options { files_with_matches: true, line_number: false, invert_match: true, only_matching: true },
        counters: Counters { count: false, total_count: false },
    };

    let only_counters = Grep {
        pattern: Box::new(String::new()),
        path: vec![],
        dereference_recursive: false,
        ignore_case: false,
        hidden_items: false,
        context: Context { after_context: 0, before_context: 0, context: 0 },
        options: Options { files_with_matches: false, line_number: false, invert_match: false, only_matching: false },
        counters: Counters { count: true, total_count: false },
    };

    let both_options_and_counters = Grep {
        pattern: Box::new(String::new()),
        path: vec![],
        dereference_recursive: false,
        ignore_case: false,
        hidden_items: false,
        context: Context { after_context: 0, before_context: 0, context: 0 },
        options: Options { files_with_matches: true, line_number: false, invert_match: true, only_matching: true },
        counters: Counters { count: true, total_count: false },
    };

    assert!(no_options_no_counters.validate_commands());
    assert!(only_options.validate_commands());
    assert!(only_counters.validate_commands());
    assert!(!both_options_and_counters.validate_commands());
}

#[test]
fn every_option_with_every_counter_is_invalid() {
    for option in 0..4 {
        for counter in 0..2 {
            let options = Options {
                files_with_matches: option == 0,
                line_number: option == 1,
                invert_match: option == 2,
                only_matching: option == 3,
            };
            let counters = Counters { count: counter == 0, total_count: counter == 1 };
            let grep = request("grep", false, no_context(), options, counters);
            assert!(!grep.validate_commands());
            assert_eq!(
                Err(CluErrors::InvalidCommandCombination("grep".to_string())),
                grep.execute(vec![readable("a.txt", SAMPLE)])
            );
        }
    }
}

#[test]
fn invalid_combination_comes_before_any_file_error() {
    let options = Options { files_with_matches: false, line_number: true, invert_match: false, only_matching: false };
    let counters = Counters { count: true, total_count: false };
    let grep = request("[a-z+", false, no_context(), options, counters);
    let files = vec![FileInput { path: "dir".to_string(), state: FileState::Directory }];
    assert_eq!(Err(CluErrors::InvalidCommandCombination("grep".to_string())), grep.execute(files));
}

#[test]
fn window_uses_context_when_positive() {
    assert_eq!((3, 3), Context { after_context: 1, before_context: 2, context: 3 }.window());
    assert_eq!((2, 2), Context { after_context: 2, before_context: 2, context: 2 }.window());
    assert_eq!((2, 1), Context { after_context: 1, before_context: 2, context: 0 }.window());
    assert_eq!((0, 0), Context { after_context: 0, before_context: 0, context: 0 }.window());
}

#[test]
fn context_overrides_sides_even_when_equal() {
    let reg = Regex::new("c").unwrap();
    let contents = "a\nb\nc\nd\ne";
    let with_context = Grep::search(reg.clone(), contents.to_string(), 1, 1, 1, true, false, false);
    let with_sides = Grep::search(reg.clone(), contents.to_string(), 1, 1, 0, true, false, false);
    assert_eq!(with_sides, with_context);
    assert_eq!(strings(&["2-b", "3:c", "4-d"]), with_context);
    let smaller = Grep::search(reg.clone(), contents.to_string(), 2, 0, 1, true, false, false);
    assert_eq!(strings(&["2-b", "3:c", "4-d"]), smaller);
}

#[test]
fn overlapping_windows_print_each_line_once() {
    let reg = Regex::new("x").unwrap();
    let contents = "a\nx1\nb\nx2\nc\nd";
    let out = Grep::search(reg, contents.to_string(), 0, 0, 1, true, false, false);
    assert_eq!(strings(&["1-a", "2:x1", "3-b", "4:x2", "5-c"]), out);
}

#[test]
fn windows_clamp_at_both_ends() {
    let reg = Regex::new("x").unwrap();
    let out = Grep::search(reg.clone(), "x\na".to_string(), 5, 0, 0, true, false, false);
    assert_eq!(strings(&["1:x"]), out);
    let out = Grep::search(reg.clone(), "a\nx".to_string(), 0, usize::MAX, 0, true, false, false);
    assert_eq!(strings(&["2:x"]), out);
    let out = Grep::search(reg, "a\nx\nb".to_string(), usize::MAX, usize::MAX, 0, true, false, false);
    assert_eq!(strings(&["1-a", "2:x", "3-b"]), out);
}

#[test]
fn window_past_a_later_hit_prints_its_context_first() {
    let reg = Regex::new("x").unwrap();
    let out = Grep::search(reg, "x1\nx2\na\nb".to_string(), 0, 2, 0, true, false, false);
    assert_eq!(strings(&["1:x1", "3-a", "2:x2", "4-b"]), out);
}

#[test]
fn only_matching_prints_each_match() {
    let reg = Regex::new("you").unwrap();
    let out = Grep::search(reg, SAMPLE.to_string(), 0, 0, 0, true, false, true);
    assert_eq!(strings(&["1:you", "2:you", "2:you", "4:you"]), out);
}

#[test]
fn inverted_only_matching_prints_whole_lines() {
    let reg = Regex::new("you").unwrap();
    let plain = Grep::search(reg.clone(), SAMPLE.to_string(), 0, 0, 0, true, true, false);
    let only = Grep::search(reg, SAMPLE.to_string(), 0, 0, 0, true, true, true);
    assert_eq!(plain, only);
    assert_eq!(strings(&["3:I'm grep"]), only);
}

#[test]
fn search_of_empty_content_is_empty() {
    let reg = Regex::new("a").unwrap();
    assert!(Grep::search(reg.clone(), String::new(), 1, 1, 0, true, false, false).is_empty());
    assert!(Grep::search(reg.clone(), String::new(), 1, 1, 0, true, true, false).is_empty());
    assert_eq!(strings(&["0"]), Grep::count(reg.clone(), String::new()));
    assert_eq!(strings(&["0"]), Grep::total_count(reg, String::new()));
}

#[test]
fn lines_end_at_line_feeds() {
    let reg = Regex::new("").unwrap();
    assert_eq!(strings(&["3"]), Grep::count(reg.clone(), "a\r\n\nb\n".to_string()));
    let out = Grep::search(reg, "a\r\n\nb\r".to_string(), 0, 0, 0, true, false, false);
    assert_eq!(strings(&["1:a", "2:", "3:b\r"]), out);
}

#[test]
fn line_numbers_grow_past_one_digit() {
    let reg = Regex::new("x").unwrap();
    let mut contents = String::new();
    for _ in 0..104 {
        contents.push_str("a\n");
    }
    contents.push_str("x");
    let out = Grep::search(reg, contents, 0, 0, 0, true, false, false);
    assert_eq!(strings(&["105:x"]), out);
    assert_eq!("1000-z".to_string(), Grep::output_search_lines(999, "z", true, true));
}

#[test]
fn emit_lines_follows_the_hits() {
    let lines = vec!["a", "b", "c", "d"];
    let hits = vec![
        Hit { index: 1, parts: strings(&["b1", "b2"]) },
        Hit { index: 3, parts: strings(&["d"]) },
    ];
    assert_eq!(vec![1, 3], indices_of(&hits));
    assert_eq!(strings(&["1-a", "2:b1", "2:b2", "3-c", "4:d"]), emit_lines(&lines, &hits, 1, 0, true));
    assert_eq!(strings(&["b1", "b2", "c", "d"]), emit_lines(&lines, &hits, 0, 1, false));
    assert!(emit_lines(&lines, &vec![], 1, 1, true).is_empty());
}

#[test]
fn select_hits_splits_or_keeps_whole() {
    let reg = Regex::new("o+").unwrap();
    let lines = vec!["foo boo", "bar", "o"];
    let whole = select_hits(&reg, &lines, false, false);
    assert_eq!(2, whole.len());
    assert_eq!(0, whole[0].index);
    assert_eq!(strings(&["foo boo"]), whole[0].parts);
    assert_eq!(2, whole[1].index);
    let split = select_hits(&reg, &lines, false, true);
    assert_eq!(strings(&["oo", "oo"]), split[0].parts);
    assert_eq!(strings(&["o"]), split[1].parts);
    let inverted = select_hits(&reg, &lines, true, false);
    assert_eq!(1, inverted.len());
    assert_eq!(1, inverted[0].index);
    assert_eq!(strings(&["bar"]), inverted[0].parts);
}

#[test]
fn context_map_leaves_out_hits_and_far_lines() {
    let lines = vec!["a", "b", "c", "d", "e", "f"];
    let map = context_map(&lines, &vec![1, 2], 1, 1, 6);
    assert_eq!(HashMap::from([(0 as usize, "a"), (3, "d")]), map);
    assert!(context_map(&lines, &vec![1, 2], 0, 0, 6).is_empty());
    assert!(context_map(&lines, &vec![], 3, 3, 6).is_empty());
    assert!(context_map(&lines, &vec![2], 3, 3, 0).is_empty());
    assert_eq!(HashMap::from([(1 as usize, "b")]), context_map(&lines, &vec![0], 5, 0, 2));
    assert!(contains_index(&vec![4, 7], 7));
    assert!(!contains_index(&vec![4, 7], 5));
}

#[test]
fn nothing_found_is_reported() {
    let files = vec![readable("a.txt", SAMPLE), readable("b.txt", HIDDEN)];
    let grep = request("absent", false, no_context(), no_options(), no_counters());
    assert_eq!(Err(CluErrors::NotFoundError), grep.execute(files.clone()));
    let listing = Options { files_with_matches: true, line_number: false, invert_match: false, only_matching: false };
    let grep = request("absent", false, no_context(), listing, no_counters());
    assert_eq!(Err(CluErrors::NotFoundError), grep.execute(files));
    let grep = request("grep", false, no_context(), no_options(), no_counters());
    assert_eq!(Err(CluErrors::NotFoundError), grep.execute(vec![]));
    let grep = request("[a-z+", false, no_context(), no_options(), no_counters());
    assert_eq!(Err(CluErrors::NotFoundError), grep.execute(vec![]));
}

#[test]
fn a_count_of_zero_is_still_output() {
    let grep = request("absent", false, no_context(), no_options(), Counters { count: true, total_count: false });
    assert_eq!(Ok("\t----a.txt----\n\n0".to_string()), grep.execute(vec![readable("a.txt", SAMPLE)]));
}

#[test]
fn execute_joins_the_blocks_of_the_files() {
    let files = vec![readable("a.txt", SAMPLE), readable("none.txt", "nothing"), readable("b.txt", HIDDEN)];
    let numbered = Options { files_with_matches: false, line_number: true, invert_match: false, only_matching: false };
    let grep = request("grep", false, Context { after_context: 0, before_context: 0, context: 1 }, numbered, no_counters());
    assert_eq!(
        Ok("\t----a.txt----\n\n2-How are you? Who are you?\n3:I'm grep\n4-Nice to meet you\n\n\t----b.txt----\n\n1:I'm a hidden file created to test grep!".to_string()),
        grep.execute(files.clone())
    );
    let listing = Options { files_with_matches: true, line_number: false, invert_match: false, only_matching: false };
    let grep = request("grep", false, no_context(), listing, no_counters());
    assert_eq!(Ok("a.txt\n\nb.txt".to_string()), grep.execute(files.clone()));
    let total = Counters { count: false, total_count: true };
    let grep = request("you", false, no_context(), no_options(), total);
    assert_eq!(
        Ok("\t----a.txt----\n\n4\n\n\t----none.txt----\n\n0\n\n\t----b.txt----\n\n0".to_string()),
        grep.execute(files)
    );
}

#[test]
fn first_failing_file_fails_the_whole_search() {
    let files = vec![
        readable("a.txt", SAMPLE),
        FileInput { path: "gone.txt".to_string(), state: FileState::Unreadable },
        FileInput { path: "dir".to_string(), state: FileState::Directory },
    ];
    let grep = request("grep", false, no_context(), no_options(), no_counters());
    assert_eq!(Err(CluErrors::InputError("gone.txt cannot be read".to_string())), grep.execute(files));
    let grep = request("[a-z+", false, no_context(), no_options(), no_counters());
    let files = vec![FileInput { path: "dir".to_string(), state: FileState::Directory }];
    assert_eq!(Err(CluErrors::RegexError("[a-z+".to_string())), grep.execute(files));
}

#[test]
fn file_block_lines_puts_a_header_first() {
    let grep = request("grep", false, no_context(), no_options(), no_counters());
    let reg = Regex::new("grep").unwrap();
    assert_eq!(
        Ok(strings(&["\n\t----a.txt----\n", "I'm grep"])),
        grep.file_block_lines(reg.clone(), &readable("a.txt", SAMPLE))
    );
    assert_eq!(Ok(vec![]), grep.file_block_lines(reg, &readable("a.txt", "nothing")));
}

#[test]
fn one_path_is_resolved_and_several_are_taken_as_given() {
    let mut grep = request("grep", false, no_context(), no_options(), no_counters());
    assert_eq!(PathSource::Resolve, grep.path_source());
    grep.path = strings(&["*.txt"]);
    assert_eq!(PathSource::Resolve, grep.path_source());
    grep.path = strings(&["a.txt", "b.txt"]);
    assert_eq!(PathSource::AsGiven, grep.path_source());
    grep.path = strings(&["a.txt", "b.txt", "c"]);
    assert_eq!(PathSource::AsGiven, grep.path_source());
}

#[test]
fn borrowed_text_gives_what_owned_text_gives() {
    let reg = Regex::new("you").unwrap();
    assert_eq!(
        Grep::search(reg.clone(), SAMPLE.to_string(), 1, 0, 0, true, false, true),
        Grep::search_text(&reg, SAMPLE, 1, 0, 0, true, false, true)
    );
    assert_eq!(strings(&["3"]), Grep::count_text(&reg, SAMPLE));
    assert_eq!(strings(&["4"]), Grep::total_count_text(&reg, SAMPLE));
    assert!(Grep::files_with_matches_text(&reg, SAMPLE, false));
    assert!(!Grep::files_with_matches_text(&reg, "Hey", false));
}
