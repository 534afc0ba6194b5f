use getme::config::{Flags, OptionState};
use getme::printer::{
    format_count_result, format_match_result, highlight_matches, render_results, sanitize_output,
    strip_markers, to_decimal,
};
use getme::result::SearchMatch;
use getme::scanner::FileInput;
use getme::searcher::search_files;

fn flags(count: bool, show_names: bool, show_lines: bool) -> Flags {
    Flags {
        ignore_case: false,
        parallel: false,
        recursive: false,
        count,
        show_names,
        show_lines,
        invert_match: false,
        hidden: false,
    }
}

const RED: &[u8] = b"\x1b[31m";
const RESET: &[u8] = b"\x1b[0m";

fn red_wrapped(before: &str, matched: &str, after: &str) -> Vec<u8> {
    let mut out = Vec::new();
    out.extend_from_slice(before.as_bytes());
    out.extend_from_slice(RED);
    out.extend_from_slice(matched.as_bytes());
    out.extend_from_slice(RESET);
    out.extend_from_slice(after.as_bytes());
    out
}

#[test]
fn test_print_results_count() {
    let results = vec![
        SearchMatch::new(
            b"test_data/test_file.txt",
            1,
            b"This is a test file.".to_vec(),
            vec![(10, 14)],
        ),
        SearchMatch::new(
            b"test_data/test_file.txt",
            2,
            b"Another test line.".to_vec(),
            vec![(8, 12)],
        ),
    ];
    let files = vec![FileInput {
        path: b"test_data/test_file.txt".to_vec(),
        lines: Some(vec![
            b"This is a test file.".to_vec(),
            b"Another test line.".to_vec(),
        ]),
    }];
    let out = search_files(b"test", &files, &flags(true, true, false)).unwrap();
    assert_eq!(out.records, results);
    let lines = render_results(&out, &flags(true, true, false));
    assert_eq!(lines, vec![b"test_data/test_file.txt: 2".to_vec()]);
}

#[test]
fn test_print_results_match() {
    let results = vec![SearchMatch::new(
        b"test_data/test_file.txt",
        1,
        b"This is a test file.".to_vec(),
        vec![(10, 14)],
    )];
    let files = vec![FileInput {
        path: b"test_data/test_file.txt".to_vec(),
        lines: Some(vec![b"This is a test file.".to_vec()]),
    }];
    let out = search_files(b"test", &files, &flags(false, true, true)).unwrap();
    assert_eq!(out.records, results);
    let lines = render_results(&out, &flags(false, true, true));
    let mut expected = b"test_data/test_file.txt:1:".to_vec();
    expected.extend_from_slice(&red_wrapped("This is a ", "test", " file."));
    assert_eq!(lines, vec![expected]);
}

#[test]
fn test_count_mode_per_file_and_total() {
    let files = vec![
        FileInput {
            path: b"A".to_vec(),
            lines: Some(vec![b"one test line".to_vec()]),
        },
        FileInput {
            path: b"B".to_vec(),
            lines: Some(vec![b"test".to_vec(), b"more test".to_vec()]),
        },
    ];
    let out = search_files(b"test", &files, &flags(true, true, false)).unwrap();
    let named = render_results(&out, &flags(true, true, false));
    assert_eq!(named, vec![b"A: 1".to_vec(), b"B: 2".to_vec()]);
    let total = render_results(&out, &flags(true, false, false));
    assert_eq!(total, vec![b"3".to_vec()]);
}

#[test]
fn test_search_and_render_pipeline() {
    let files = vec![
        FileInput {
            path: b"A".to_vec(),
            lines: Some(vec![b"one test line".to_vec()]),
        },
        FileInput {
            path: b"B".to_vec(),
            lines: Some(vec![b"test".to_vec(), b"more test".to_vec()]),
        },
    ];
    let (output, lines) =
        getme::search_and_render(b"test", &files, &flags(true, true, false)).unwrap();
    assert!(output.result.has_match());
    assert_eq!(lines, vec![b"A: 1".to_vec(), b"B: 2".to_vec()]);
    let (_, total_line) =
        getme::search_and_render(b"test", &files, &flags(true, false, false)).unwrap();
    assert_eq!(total_line, vec![b"3".to_vec()]);
}

#[test]
fn test_count_mode_skips_files_without_matches() {
    let files = vec![
        FileInput {
            path: b"A".to_vec(),
            lines: Some(vec![b"a test".to_vec()]),
        },
        FileInput {
            path: b"C".to_vec(),
            lines: Some(vec![b"nothing at all".to_vec()]),
        },
    ];
    let out = search_files(b"test", &files, &flags(true, true, false)).unwrap();
    let named = render_results(&out, &flags(true, true, false));
    assert_eq!(named, vec![b"A: 1".to_vec()]);
}

#[test]
fn test_count_mode_merges_scans_of_a_path() {
    // A path scanned twice gets a single count line with the merged total.
    let files = vec![
        FileInput {
            path: b"A".to_vec(),
            lines: Some(vec![b"a test".to_vec()]),
        },
        FileInput {
            path: b"B".to_vec(),
            lines: Some(vec![b"no match".to_vec()]),
        },
        FileInput {
            path: b"A".to_vec(),
            lines: Some(vec![b"test again".to_vec(), b"and a test".to_vec()]),
        },
    ];
    let out = search_files(b"test", &files, &flags(true, true, false)).unwrap();
    let named = render_results(&out, &flags(true, true, false));
    assert_eq!(named, vec![b"A: 3".to_vec()]);
    let total = render_results(&out, &flags(true, false, false));
    assert_eq!(total, vec![b"3".to_vec()]);
}

#[test]
fn test_count_mode_merges_zero_and_positive_scans() {
    // A scan with no records still folds into its path's merged total.
    let files = vec![
        FileInput {
            path: b"A".to_vec(),
            lines: Some(vec![b"nothing here".to_vec()]),
        },
        FileInput {
            path: b"A".to_vec(),
            lines: Some(vec![b"one test".to_vec()]),
        },
    ];
    let out = search_files(b"test", &files, &flags(true, true, false)).unwrap();
    let named = render_results(&out, &flags(true, true, false));
    assert_eq!(named, vec![b"A: 1".to_vec()]);
}

#[test]
fn test_highlight_strip_round_trip() {
    let line = b"This is a test file.";
    let highlighted = highlight_matches(line, &[(10, 14)]);
    assert_eq!(highlighted, red_wrapped("This is a ", "test", " file."));
    assert_eq!(strip_markers(&highlighted), line.to_vec());

    let twice = highlight_matches(b"test test", &[(0, 4), (5, 9)]);
    assert_eq!(strip_markers(&twice), b"test test".to_vec());

    let nothing = highlight_matches(b"no spans here", &[]);
    assert_eq!(nothing, b"no spans here".to_vec());
    assert_eq!(strip_markers(&nothing), b"no spans here".to_vec());
}

#[test]
fn test_sanitize_output_strips_control_bytes() {
    assert_eq!(sanitize_output(b"a\tb\x1bc\x7fd"), b"abcd".to_vec());
    assert_eq!(sanitize_output(b"plain"), b"plain".to_vec());
    assert_eq!(sanitize_output(b""), Vec::<u8>::new());
}

#[test]
fn test_sanitize_output_strips_c1_control_characters() {
    // U+0085 (next line) is a control character: its bytes C2 85 go together.
    assert_eq!(sanitize_output(b"a\xc2\x85b"), b"ab".to_vec());
    // U+009F, the last of the C1 range, likewise.
    assert_eq!(sanitize_output(b"a\xc2\x9fb"), b"ab".to_vec());
    // U+00A0 (no-break space) is not a control character: kept whole.
    assert_eq!(sanitize_output(b"a\xc2\xa0b"), b"a\xc2\xa0b".to_vec());
    // "é" (C3 A9) is untouched: only the C2-led range encodes controls.
    assert_eq!(sanitize_output("café".as_bytes()), "café".as_bytes().to_vec());
}

#[test]
fn test_sanitize_output_idempotent_on_text() {
    let once = sanitize_output(b"x\x07\xc2\x9f y\x1b");
    assert_eq!(once, b"x y".to_vec());
    assert_eq!(sanitize_output(&once), once);
}

#[test]
fn test_format_match_result_prefixes() {
    let record = SearchMatch::new(b"dir/file.txt", 7, b"a test".to_vec(), vec![(2, 6)]);
    let bare = format_match_result(&record, &flags(false, false, false));
    assert_eq!(bare, red_wrapped("a ", "test", ""));
    let with_lines = format_match_result(&record, &flags(false, false, true));
    let mut expected = b"7:".to_vec();
    expected.extend_from_slice(&red_wrapped("a ", "test", ""));
    assert_eq!(with_lines, expected);
    let with_both = format_match_result(&record, &flags(false, true, true));
    let mut expected = b"dir/file.txt:7:".to_vec();
    expected.extend_from_slice(&red_wrapped("a ", "test", ""));
    assert_eq!(with_both, expected);
}

#[test]
fn test_format_count_result_exact() {
    let f = flags(true, true, false);
    assert_eq!(format_count_result(b"A", 1, &f), b"A: 1".to_vec());
    assert_eq!(format_count_result(b"dir/b", 42, &f), b"dir/b: 42".to_vec());
}

#[test]
fn test_to_decimal_digits() {
    assert_eq!(to_decimal(0), b"0".to_vec());
    assert_eq!(to_decimal(9), b"9".to_vec());
    assert_eq!(to_decimal(10), b"10".to_vec());
    assert_eq!(to_decimal(90210), b"90210".to_vec());
}

#[test]
fn test_search_match_new_keeps_fields() {
    let record = SearchMatch::new(b"f", 3, b"abc".to_vec(), vec![(0, 1)]);
    assert_eq!(record.file, b"f".to_vec());
    assert_eq!(record.line_number, 3);
    assert_eq!(record.line_content, b"abc".to_vec());
    assert_eq!(record.matches, vec![(0, 1)]);
}

#[test]
fn test_option_state_toggles() {
    let mut state = OptionState::default();
    assert!(!state.is_enabled());
    state.set_enabled(true);
    assert!(state.is_enabled());
    assert!(matches!(state, OptionState::Enabled));
    state.set_enabled(false);
    assert!(!state.is_enabled());
}
