use getme::config::Flags;
use getme::matcher::PatternCache;
use getme::scanner::FileInput;
use getme::searcher::{search_files, search_files_parallel, select_exit_code};
use getme::SearchError;

fn flags_default() -> Flags {
    Flags {
        ignore_case: false,
        parallel: false,
        recursive: false,
        count: false,
        show_names: false,
        show_lines: false,
        invert_match: false,
        hidden: false,
    }
}

fn file_input(path: &str, lines: &[&str]) -> FileInput {
    FileInput {
        path: path.as_bytes().to_vec(),
        lines: Some(lines.iter().map(|l| l.as_bytes().to_vec()).collect()),
    }
}

fn test_file() -> FileInput {
    file_input(
        "test_data/test_file.txt",
        &["This is a test file.", "Another test line."],
    )
}

fn another_test_file() -> FileInput {
    file_input(
        "test_data/another_test_file.txt",
        &["No match here.", "Yet another test."],
    )
}

#[test]
fn test_search_files_single_file() {
    let flags = flags_default();
    let files = vec![test_file()];
    let results = search_files(b"test", &files, &flags).unwrap().records;
    assert_eq!(results.len(), 2);
    assert_eq!(results[0].file, b"test_data/test_file.txt".to_vec());
    assert_eq!(results[0].line_number, 1);
    assert_eq!(results[0].line_content, b"This is a test file.".to_vec());
    assert_eq!(results[0].matches.len(), 1);
}

#[test]
fn test_search_files_multiple_files() {
    let flags = flags_default();
    let files = vec![test_file(), another_test_file()];
    let results = search_files(b"test", &files, &flags).unwrap().records;
    assert_eq!(results.len(), 3);
}

#[test]
fn test_search_files_ignore_case() {
    let mut flags = flags_default();
    flags.ignore_case = true;
    let files = vec![test_file()];
    let results = search_files(b"TEST", &files, &flags).unwrap().records;
    assert_eq!(results.len(), 2);
}

#[test]
fn test_search_files_case_sensitive() {
    let flags = flags_default();
    let files = vec![test_file()];
    let results = search_files(b"TEST", &files, &flags).unwrap().records;
    assert_eq!(results.len(), 0);
}

#[test]
fn test_search_files_parallel() {
    let mut flags = flags_default();
    flags.parallel = true;
    let files = vec![test_file(), another_test_file()];
    let results = search_files(b"test", &files, &flags).unwrap().records;
    assert_eq!(results.len(), 3);
}

#[test]
fn test_normal_mode_single_record_with_span() {
    let flags = flags_default();
    let files = vec![file_input("f", &["This is a test file.", "Another line."])];
    let out = search_files(b"test", &files, &flags).unwrap();
    assert_eq!(out.records.len(), 1);
    assert_eq!(out.records[0].line_number, 1);
    assert_eq!(out.records[0].matches, vec![(10, 14)]);
    assert!(out.result.has_match());
    let ok: Result<_, SearchError> = Ok(out);
    assert_eq!(select_exit_code(&ok), 0);
}

#[test]
fn test_ignore_case_matches_same_record() {
    let mut flags = flags_default();
    flags.ignore_case = true;
    let files = vec![file_input("f", &["This is a test file.", "Another line."])];
    let out = search_files(b"TEST", &files, &flags).unwrap();
    assert_eq!(out.records.len(), 1);
    assert_eq!(out.records[0].line_number, 1);
    assert_eq!(out.records[0].matches, vec![(10, 14)]);
}

#[test]
fn test_case_sensitive_no_records() {
    let flags = flags_default();
    let files = vec![file_input("f", &["This is a test file.", "Another line."])];
    let out = search_files(b"TEST", &files, &flags).unwrap();
    assert_eq!(out.records.len(), 0);
    assert!(!out.result.has_match());
    let ok: Result<_, SearchError> = Ok(out);
    assert_eq!(select_exit_code(&ok), 1);
}

#[test]
fn test_invert_match_single_record() {
    let mut flags = flags_default();
    flags.invert_match = true;
    let files = vec![file_input("f", &["test line", "no match here"])];
    let out = search_files(b"test", &files, &flags).unwrap();
    assert_eq!(out.records.len(), 1);
    assert_eq!(out.records[0].line_number, 2);
    assert_eq!(out.records[0].line_content, b"no match here".to_vec());
    assert!(out.records[0].matches.is_empty());
}

#[test]
fn test_empty_file_no_records() {
    let empty = FileInput {
        path: b"empty".to_vec(),
        lines: Some(Vec::new()),
    };
    let flags = flags_default();
    let out = search_files(b"anything", &vec![empty], &flags).unwrap();
    assert_eq!(out.records.len(), 0);

    let empty_again = FileInput {
        path: b"empty".to_vec(),
        lines: Some(Vec::new()),
    };
    let mut inverted = flags_default();
    inverted.invert_match = true;
    let out = search_files(b"anything", &vec![empty_again], &inverted).unwrap();
    assert_eq!(out.records.len(), 0);
}

#[test]
fn test_parallel_equals_sequential() {
    let files = vec![
        test_file(),
        another_test_file(),
        file_input("third", &["test test test", "nothing", "a test"]),
    ];
    let sequential = search_files(b"test", &files, &flags_default()).unwrap();
    let parallel = search_files_parallel(b"test", &files, &flags_default()).unwrap();
    assert_eq!(sequential.records, parallel.records);
    assert_eq!(sequential.counts, parallel.counts);
    assert_eq!(
        sequential.result.has_match(),
        parallel.result.has_match()
    );
}

#[test]
fn test_cache_reuse_same_behavior() {
    let mut cache = PatternCache::new();
    let first = cache.compile_or_get_regex(b"te.t", false).unwrap();
    let second = cache.compile_or_get_regex(b"te.t", false).unwrap();
    let line = b"a test and a text";
    assert_eq!(first.find_spans(line), second.find_spans(line));
    assert_eq!(first.find_spans(line), Some(vec![(2, 6), (13, 17)]));
}

#[test]
fn test_invalid_pattern_error() {
    let flags = flags_default();
    let files = vec![test_file()];
    let result = search_files(b"[", &files, &flags);
    match &result {
        Err(SearchError::InvalidPattern(_)) => (),
        _ => panic!("an unclosed character class must be rejected"),
    }
    assert_eq!(select_exit_code(&result), 2);
}

#[test]
fn test_undecodable_line_skipped() {
    let bad = FileInput {
        path: b"bad".to_vec(),
        lines: Some(vec![vec![0xff, 0x61], b"a plain line".to_vec()]),
    };
    let flags = flags_default();
    let out = search_files(b"a", &vec![bad], &flags).unwrap();
    assert_eq!(out.records.len(), 1);
    assert_eq!(out.records[0].line_number, 2);

    let bad_again = FileInput {
        path: b"bad".to_vec(),
        lines: Some(vec![vec![0xff, 0x61]]),
    };
    let mut inverted = flags_default();
    inverted.invert_match = true;
    let out = search_files(b"zzz", &vec![bad_again], &inverted).unwrap();
    assert_eq!(out.records.len(), 0);
}

#[test]
fn test_empty_needle_matches_every_position() {
    let flags = flags_default();
    let files = vec![file_input("f", &["ab"])];
    let out = search_files(b"", &files, &flags).unwrap();
    assert_eq!(out.records.len(), 1);
    assert_eq!(out.records[0].matches, vec![(0, 0), (1, 1), (2, 2)]);
}

#[test]
fn test_spans_are_byte_offsets() {
    let flags = flags_default();
    let files = vec![file_input("f", &["café au lait"])];
    let out = search_files("é".as_bytes(), &files, &flags).unwrap();
    assert_eq!(out.records.len(), 1);
    assert_eq!(out.records[0].matches, vec![(3, 5)]);
}

#[test]
fn test_unreadable_file_contributes_nothing() {
    let unreadable = FileInput {
        path: b"gone".to_vec(),
        lines: None,
    };
    let flags = flags_default();
    let out = search_files(b"a", &vec![unreadable], &flags).unwrap();
    assert_eq!(out.records.len(), 0);
    assert_eq!(out.counts, vec![(b"gone".to_vec(), 0)]);
    assert!(!out.result.has_match());
}
