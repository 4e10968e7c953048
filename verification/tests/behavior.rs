use rep::error::RepError;
use rep::file_output_lines;
use rep::args::parse_args;
use rep::flags::Flag;
use rep::output::{format_count, format_match, OutputConfig, OutputMode};
use rep::search::{search, SearchConfig};

fn plain(case_insensitive: bool, invert_match: bool) -> SearchConfig {
    SearchConfig {
        case_insensitive,
        invert_match,
    }
}

#[test]
fn test_partition_of_lines() {
    let content = "line one\nline two\nline three";
    let normal = search(content, "two", &plain(false, false));
    let inverted = search(content, "two", &plain(false, true));
    assert_eq!(normal.total_count + inverted.total_count, 3);
    let normal = search(content, "line", &plain(false, false));
    let inverted = search(content, "line", &plain(false, true));
    assert_eq!(normal.total_count + inverted.total_count, 3);
}

#[test]
fn test_line_numbers_strictly_increasing() {
    let content = "a\nb\na\nc\na";
    let result = search(content, "a", &plain(false, false));
    assert_eq!(result.total_count, 3);
    assert_eq!(result.matches[0].line_number, 0);
    assert_eq!(result.matches[1].line_number, 2);
    assert_eq!(result.matches[2].line_number, 4);
}

#[test]
fn test_case_insensitive_recasing() {
    let lower = "line one\nline two\nline three";
    let shouted = "LINE ONE\nLine Two\nlInE tHrEe";
    let a = search(lower, "two", &plain(true, false));
    let b = search(shouted, "two", &plain(true, false));
    assert_eq!(a.total_count, b.total_count);
    assert_eq!(a.matches[0].line_number, b.matches[0].line_number);
    // each result carries its own original casing
    assert_eq!(a.matches[0].content, "line two");
    assert_eq!(b.matches[0].content, "Line Two");
}

#[test]
fn test_case_folding_is_real() {
    // fails if case folding handed its argument back unchanged
    let result = search("ABC DEF", "abc", &plain(true, false));
    assert_eq!(result.total_count, 1);
    let result = search("straße", "STRASSE", &plain(true, false));
    assert_eq!(result.total_count, 0);
    let result = search("STRASSE", "strasse", &plain(true, false));
    assert_eq!(result.total_count, 1);
}

#[test]
fn test_empty_pattern() {
    let content = "a\nb\nc";
    let normal = search(content, "", &plain(false, false));
    assert_eq!(normal.total_count, 3);
    let inverted = search(content, "", &plain(false, true));
    assert_eq!(inverted.total_count, 0);
    let folded = search(content, "", &plain(true, false));
    assert_eq!(folded.total_count, 3);
}

#[test]
fn test_empty_content() {
    let normal = search("", "x", &plain(false, false));
    assert_eq!(normal.total_count, 0);
    let inverted = search("", "x", &plain(false, true));
    assert_eq!(inverted.total_count, 0);
}

#[test]
fn test_line_splitting_edges() {
    // a trailing line feed opens no spurious empty final line
    let result = search("a\nb\n", "", &plain(false, false));
    assert_eq!(result.total_count, 2);
    // an inner empty line is a line
    let result = search("a\n\nb", "", &plain(false, false));
    assert_eq!(result.total_count, 3);
    assert_eq!(result.matches[1].content, "");
    // no trailing line feed still yields the last partial line
    let result = search("a\nb", "b", &plain(false, false));
    assert_eq!(result.total_count, 1);
    assert_eq!(result.matches[0].line_number, 1);
}

#[test]
fn test_format_match_one_based() {
    let config = OutputConfig {
        mode: OutputMode::FullLines,
        show_line_numbers: true,
        show_filename: true,
    };
    assert_eq!(format_match("some line", 4, Some("f.txt"), &config), "f.txt:5:some line");
}

#[test]
fn test_format_match_bare_line() {
    let config = OutputConfig {
        mode: OutputMode::FullLines,
        show_line_numbers: false,
        show_filename: false,
    };
    assert_eq!(format_match("some line", 0, None, &config), "some line");
    // a filename present but not shown adds nothing
    assert_eq!(format_match("some line", 7, Some("f.txt"), &config), "some line");
}

#[test]
fn test_format_count_prefixes() {
    assert_eq!(format_count(3, Some("f.txt"), true), "f.txt:3");
    assert_eq!(format_count(3, Some("f.txt"), false), "3");
    assert_eq!(format_count(0, None, false), "0");
    assert_eq!(format_count(120, None, false), "120");
}

#[test]
fn test_end_to_end_plain() {
    let content = "line one\nline two\nline three";
    let flags: Vec<Flag> = vec![];
    let scfg = SearchConfig::from_flags(&flags);
    let ocfg = OutputConfig::new(&flags, false);
    let lines = file_output_lines(content, "two", Some("f.txt"), &scfg, &ocfg);
    assert_eq!(lines, vec!["line two"]);
}

#[test]
fn test_end_to_end_case_insensitive() {
    let content = "line one\nline two\nline three";
    let flags = vec![Flag::CaseInsensitive];
    let scfg = SearchConfig::from_flags(&flags);
    let ocfg = OutputConfig::new(&flags, false);
    let lines = file_output_lines(content, "LINE", None, &scfg, &ocfg);
    assert_eq!(lines, vec!["line one", "line two", "line three"]);
}

#[test]
fn test_end_to_end_invert() {
    let content = "line one\nline two\nline three";
    let flags = vec![Flag::Invert];
    let scfg = SearchConfig::from_flags(&flags);
    let ocfg = OutputConfig::new(&flags, false);
    let lines = file_output_lines(content, "two", None, &scfg, &ocfg);
    assert_eq!(lines, vec!["line one", "line three"]);
}

#[test]
fn test_end_to_end_count() {
    let content = "line one\nline two\nline three";
    let flags = vec![Flag::Count];
    let scfg = SearchConfig::from_flags(&flags);
    // a single file: bare count
    let ocfg = OutputConfig::new(&flags, false);
    let lines = file_output_lines(content, "line", Some("f.txt"), &scfg, &ocfg);
    assert_eq!(lines, vec!["3"]);
    let lines = file_output_lines(content, "zzz", Some("f.txt"), &scfg, &ocfg);
    assert_eq!(lines, vec!["0"]);
    // several files: each count line names its file
    let ocfg = OutputConfig::new(&flags, true);
    let lines = file_output_lines(content, "t", Some("f.txt"), &scfg, &ocfg);
    assert_eq!(lines, vec!["f.txt:2"]);
}

#[test]
fn test_end_to_end_line_numbers() {
    let content = "line one\nline two\nline three";
    let flags = vec![Flag::LineNumbers];
    let scfg = SearchConfig::from_flags(&flags);
    let ocfg = OutputConfig::new(&flags, false);
    let lines = file_output_lines(content, "t", None, &scfg, &ocfg);
    assert_eq!(lines, vec!["2:line two", "3:line three"]);
}

#[test]
fn test_parse_args_help() {
    let args = vec!["program".to_string(), "--help".to_string()];
    match parse_args(&args) {
        Err(RepError::Help(usage)) => {
            assert!(usage.starts_with("Usage: program [OPTIONS] <PATTERN> <FILE(S)...>"));
        }
        _ => panic!("expected a help request"),
    }
    let args = vec!["program".to_string(), "-h".to_string()];
    assert!(matches!(parse_args(&args), Err(RepError::Help(_))));
}

#[test]
fn test_error_messages() {
    let msg = RepError::NoFilesMatched.message();
    assert_eq!(
        msg,
        "\u{274c} No files found matching your pattern\n\n\u{1f4a1} Tips:\n   \u{2022} Check if files exist in the current directory\n   \u{2022} Try a broader pattern (e.g., *.txt instead of specific names)\n   \u{2022} Use 'ls' to see available files"
    );
    let msg = RepError::FileNotFound("a.txt".to_string()).message();
    assert!(msg.starts_with("\u{274c} Cannot find file: 'a.txt'"));
    match parse_args(&Vec::new()) {
        Err(RepError::InvalidArguments(m)) => {
            assert_eq!(
                m,
                "No program name provided (this is unusual - are you calling this correctly?)"
            );
        }
        _ => panic!("expected an argument error"),
    }
}

#[test]
fn test_literal_file_pattern() {
    assert!(rep::is_literal_file_pattern("notes.txt"));
    assert!(!rep::is_literal_file_pattern("*.txt"));
    assert!(!rep::is_literal_file_pattern("data?.csv"));
    assert!(!rep::is_literal_file_pattern("log[0-9].txt"));
}

#[test]
fn test_usage_text() {
    let args = vec!["program".to_string(), "pattern".to_string()];
    match parse_args(&args) {
        Err(RepError::InvalidArguments(m)) => {
            assert_eq!(
                m,
                "Missing file(s) to search in\n\nUsage: program [OPTIONS] <PATTERN> <FILE(S)...>\n\nOptions:\n  -n    Show line numbers\n  -i    Case-insensitive search\n  -c    Count matches only\n  -v    Invert match (show non-matching lines)\n  -w    Match whole words only\n  -V    Verbose mode\n\nExamples:\n  program \"hello\" file.txt\n  program -n \"error\" *.log\n  program -i \"TODO\" src/*.rs"
            );
        }
        _ => panic!("expected an argument error"),
    }
}

#[test]
fn test_word_match_flag_is_parsed_but_unwired() {
    // the word-match switch is recognized yet not consulted by the searcher
    let flags = vec![Flag::WordMatch];
    let scfg = SearchConfig::from_flags(&flags);
    assert!(!scfg.case_insensitive);
    assert!(!scfg.invert_match);
    let result = search("cathedral", "cat", &scfg);
    assert_eq!(result.total_count, 1);
}
